use tag_suite::expression::{Ast, Error, Expression, Operator, Parser, Tokenizer};

fn expr(payload: &str) -> Ast {
    Ast::Expr('=', payload.to_string())
}

fn and(a: Ast, b: Ast) -> Ast {
    Ast::Operation(Operator::And(Box::new(a), Box::new(b)))
}

fn or(a: Ast, b: Ast) -> Ast {
    Ast::Operation(Operator::Or(Box::new(a), Box::new(b)))
}

fn not(a: Ast) -> Ast {
    Ast::Operation(Operator::Not(Box::new(a)))
}

fn parse(source: &str) -> Result<Option<Ast>, Error> {
    Parser::new(Tokenizer::new(source)).parse()
}

#[test]
fn parser_check_and() {
    let e = parse("=[...] & =[...]").unwrap().unwrap();
    if let Ast::Operation(node) = e {
        if let Operator::And(_, _) = node {
            return;
        }
    }
}

#[test]
fn parser_check_or() {
    let e = parse("=[...] | =[...]").unwrap().unwrap();
    if let Ast::Operation(node) = e {
        if let Operator::Or(_, _) = node {
            return;
        }
    }
}

#[test]
fn parser_check_not() {
    let e = parse("!=[...]").unwrap().unwrap();
    if let Ast::Operation(node) = e {
        if let Operator::Not(_) = node {
            return;
        }
    }
    panic!()
}

#[test]
fn parser_check_block() {
    let e = parse("(=[...])").unwrap().unwrap();
    if let Ast::Expr(_, _) = e {
        return;
    }
    panic!()
}

#[test]
#[should_panic(expected = "UnexpectedEof")]
fn check_empty_block() {
    parse("()").unwrap();
}

#[test]
#[should_panic(expected = "MissingValue")]
fn check_leading_binary_operator() {
    parse("& [...]").unwrap();
}

#[test]
#[should_panic(expected = "UnexpectedEof")]
fn check_disallow_empty_expression() {
    Expression::new(String::new()).unwrap();
}

#[test]
fn an_empty_block_is_an_unexpected_end() {
    assert_eq!(parse("()"), Err(Error::UnexpectedEof));
    assert_eq!(parse("(   )"), Err(Error::UnexpectedEof));
}

#[test]
fn a_leading_binary_operator_misses_its_value() {
    assert_eq!(parse("& [...]"), Err(Error::MissingValue));
    assert_eq!(parse("| [...]"), Err(Error::MissingValue));
}

#[test]
fn an_empty_expression_is_refused() {
    assert_eq!(Expression::new(String::new()).unwrap_err(), Error::UnexpectedEof);
    assert_eq!(Expression::new("   ".to_string()).unwrap_err(), Error::UnexpectedEof);
}

#[test]
fn an_empty_input_parses_to_nothing() {
    assert_eq!(parse(""), Ok(None));
    assert_eq!(parse("   "), Ok(None));
}

#[test]
fn binary_operators_take_both_operands() {
    assert_eq!(parse("=[a] & =[b]"), Ok(Some(and(expr("a"), expr("b")))));
    assert_eq!(parse("=[a] | =[b]"), Ok(Some(or(expr("a"), expr("b")))));
}

#[test]
fn same_operators_nest_to_the_right() {
    assert_eq!(
        parse("=[a] & =[b] & =[c]"),
        Ok(Some(and(expr("a"), and(expr("b"), expr("c")))))
    );
    assert_eq!(
        parse("=[a] | =[b] | =[c]"),
        Ok(Some(or(expr("a"), or(expr("b"), expr("c")))))
    );
}

#[test]
fn mixed_operators_bind_in_the_order_of_appearance() {
    assert_eq!(
        parse("=[a] & =[b] | =[c]"),
        Ok(Some(and(expr("a"), or(expr("b"), expr("c")))))
    );
}

#[test]
fn blocks_compile_to_their_inner_expression() {
    assert_eq!(
        parse("(=[a] | =[b]) & =[c]"),
        Ok(Some(and(or(expr("a"), expr("b")), expr("c"))))
    );
    assert_eq!(parse("((=[a]))"), Ok(Some(expr("a"))));
}

#[test]
fn not_takes_what_follows() {
    assert_eq!(parse("!=[a]"), Ok(Some(not(expr("a")))));
    assert_eq!(parse("!"), Err(Error::UnexpectedEof));
}

#[test]
fn a_binary_operator_needs_its_right_operand() {
    assert_eq!(parse("=[a] &"), Err(Error::UnexpectedEof));
}

#[test]
fn token_errors_pass_through_the_parser() {
    assert_eq!(parse("=[a] & x"), Err(Error::InvalidCharacter { c: 'x' }));
    assert_eq!(parse("=[a"), Err(Error::UnclosedDelimiter { delimiter: ']' }));
}

#[test]
fn an_expression_keeps_its_text_in_parentheses() {
    let e = Expression::new("=[t1] & =[t2]".to_string()).unwrap();
    assert_eq!(e.as_str(), "(=[t1] & =[t2])");
    assert_eq!(e.as_ast(), &and(expr("t1"), expr("t2")));
}

#[test]
fn compile_reports_the_error_of_the_query_first() {
    let r = Expression::compile(Some("x".to_string()), Some("&".to_string()));
    assert_eq!(r.unwrap_err(), Error::InvalidCharacter { c: 'x' });
    let r = Expression::compile(None, Some("&".to_string()));
    assert_eq!(r.unwrap_err(), Error::MissingValue);
    let (q, f) = Expression::compile(Some("[a]".to_string()), None).unwrap();
    assert_eq!(q.unwrap().as_ast(), &expr("a"));
    assert!(f.is_none());
}
