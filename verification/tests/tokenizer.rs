use tag_suite::expression::{
    BinaryToken, CloseToken, Error, Token, Tokenizer, UnaryToken, ValueToken,
};

fn u(t: Option<Result<Token, Error>>) -> Token {
    t.unwrap().unwrap()
}

fn e(t: Option<Result<Token, Error>>) -> Error {
    t.unwrap().unwrap_err()
}

#[test]
fn check_empty_string() {
    let mut t = Tokenizer::new("");
    assert!(t.next().is_none());
    let mut t = Tokenizer::new("      ");
    assert!(t.next().is_none());
    let mut t = Tokenizer::new("\t\n\t");
    assert!(t.next().is_none());
}

#[test]
fn check_exp() {
    let mut t = Tokenizer::new("[!!!]");
    assert_eq!(u(t.next()), Token::Value(ValueToken::Expr('=', "!!!".to_string())));
    assert!(t.next().is_none());
}

#[test]
fn tokenizer_check_and() {
    let mut t = Tokenizer::new("=[!!!] & =[???]");
    assert_eq!(u(t.next()), Token::Value(ValueToken::Expr('=', "!!!".to_string())));
    assert_eq!(u(t.next()), Token::Binary(BinaryToken::And));
    assert_eq!(u(t.next()), Token::Value(ValueToken::Expr('=', "???".to_string())));
    assert!(t.next().is_none());
}

#[test]
fn tokenizer_check_or() {
    let mut t = Tokenizer::new("=[!!!] | =[???]");
    assert_eq!(u(t.next()), Token::Value(ValueToken::Expr('=', "!!!".to_string())));
    assert_eq!(u(t.next()), Token::Binary(BinaryToken::Or));
    assert_eq!(u(t.next()), Token::Value(ValueToken::Expr('=', "???".to_string())));
    assert!(t.next().is_none());
}

#[test]
fn tokenizer_check_not() {
    let mut t = Tokenizer::new("!=[???]");
    assert_eq!(u(t.next()), Token::Unary(UnaryToken::Not));
    assert_eq!(u(t.next()), Token::Value(ValueToken::Expr('=', "???".to_string())));
    assert!(t.next().is_none());
}

#[test]
fn tokenizer_check_block() {
    let mut t = Tokenizer::new("([???])");
    assert_eq!(u(t.next()), Token::Value(ValueToken::Block));
    assert_eq!(u(t.next()), Token::Value(ValueToken::Expr('=', "???".to_string())));
    assert_eq!(u(t.next()), Token::Close(CloseToken::Block));
    assert!(t.next().is_none());
}

#[test]
#[should_panic(expected = "InvalidCharacter")]
fn check_invalid_character() {
    let mut t = Tokenizer::new("foo");
    u(t.next());
}

#[test]
#[should_panic(expected = "UnclosedDelimiter")]
fn check_unclosed_delimiter() {
    let mut t = Tokenizer::new("=[foo");
    u(t.next());
}

#[test]
#[should_panic(expected = "UnexpectedEof")]
fn check_unexpected_eof() {
    let mut t = Tokenizer::new("=");
    u(t.next());
    u(t.next());
}

#[test]
fn an_invalid_character_is_named() {
    let mut t = Tokenizer::new("foo");
    assert_eq!(e(t.next()), Error::InvalidCharacter { c: 'f' });
}

#[test]
fn an_unclosed_payload_uses_up_the_input() {
    let mut t = Tokenizer::new("=[foo");
    assert_eq!(e(t.next()), Error::UnclosedDelimiter { delimiter: ']' });
    assert!(t.next().is_none());
}

#[test]
fn a_modifier_at_the_end_is_an_unexpected_end() {
    let mut t = Tokenizer::new("=");
    assert_eq!(e(t.next()), Error::UnexpectedEof);
    let mut t = Tokenizer::new("?   ");
    assert_eq!(e(t.next()), Error::UnexpectedEof);
}

#[test]
fn modifiers_keep_their_character() {
    let mut t = Tokenizer::new("?[tags.len >= 2] $[test -f {}]");
    assert_eq!(u(t.next()), Token::Value(ValueToken::Expr('?', "tags.len >= 2".to_string())));
    assert_eq!(u(t.next()), Token::Value(ValueToken::Expr('$', "test -f {}".to_string())));
    assert!(t.next().is_none());
}

#[test]
fn white_space_may_stand_before_the_payload() {
    let mut t = Tokenizer::new("=   [a]");
    assert_eq!(u(t.next()), Token::Value(ValueToken::Expr('=', "a".to_string())));
    assert!(t.next().is_none());
}

#[test]
fn a_modifier_needs_its_bracket() {
    let mut t = Tokenizer::new("=x[a]");
    assert_eq!(e(t.next()), Error::UnexpectedCharacter { expected: '[', found: 'x' });
}

#[test]
fn escapes_are_removed_from_the_payload() {
    let mut t = Tokenizer::new("=[a\\]b\\\\c]");
    assert_eq!(u(t.next()), Token::Value(ValueToken::Expr('=', "a]bc".to_string())));
    assert!(t.next().is_none());
}

#[test]
fn an_escaped_bracket_does_not_close() {
    let mut t = Tokenizer::new("=[foo\\]");
    assert_eq!(e(t.next()), Error::UnclosedDelimiter { delimiter: ']' });
}

#[test]
fn an_invalid_character_is_not_consumed() {
    let mut t = Tokenizer::new(" x");
    assert_eq!(e(t.next()), Error::InvalidCharacter { c: 'x' });
    assert_eq!(e(t.next()), Error::InvalidCharacter { c: 'x' });
}

fn all_tokens(text: &str) -> Vec<Token> {
    let mut t = Tokenizer::new(text);
    let mut out = Vec::new();
    while let Some(token) = t.next() {
        out.push(token.unwrap());
    }
    out
}

#[test]
fn written_tokens_read_as_the_same_tokens() {
    for text in [
        "",
        "   ",
        "=[a]",
        "[a]",
        " ! ( = [a b] & ?[tags.len >= 2] ) | $[ls {}]",
        "=[a\\]b] & [\\\\c\\d]",
        "=[]",
        ") ( & | !",
        "=[[x]",
    ] {
        let tokens = all_tokens(text);
        let written = tag_suite::expression::emitter::emit(&tokens);
        assert_eq!(all_tokens(&written), tokens);
        let first = tag_suite::expression::Parser::new(Tokenizer::new(text)).parse();
        let second = tag_suite::expression::Parser::new(Tokenizer::new(&written)).parse();
        assert_eq!(first, second);
        assert_eq!(
            tag_suite::expression::Expression::new(text.to_string()).map(|e| e.as_ast().replica()),
            tag_suite::expression::Expression::new(written).map(|e| e.as_ast().replica())
        );
    }
}

#[test]
fn tokens_are_written_with_their_modifiers() {
    let emit = |text: &str| tag_suite::expression::emitter::emit(&all_tokens(text));
    assert_eq!(emit(" [a] "), "=[a]");
    assert_eq!(emit("! ( ?[x == 1] | $ [y] )"), "!(?[x == 1]|$[y])");
    assert_eq!(emit("=[a\\]b\\c\\\\]"), "=[a\\]bc]");
    assert_eq!(emit(""), "");
}
