use pyparser::ast::{Ast, Expression, Statement};
use pyparser::parser::{
    parse_compound_stmt, parse_file_input, parse_flow_stmt, parse_global_stmt, parse_name_list,
    parse_nonlocal_stmt, parse_return_stmt, parse_simple_stmt, parse_small_stmt, parse_start_symbol,
    parse_stmt, valid_flow_stmt, valid_simple_stmt,
};
use pyparser::token::{copy_token, Construct, Expected, Lexeme, ParseError, Token};

fn ident(s: &str) -> Token {
    Token::Identifier(s.to_string())
}

/// Lexemes at offsets 0, 10, 20, ...
fn lex(tokens: Vec<Token>) -> Vec<Lexeme> {
    tokens
        .into_iter()
        .enumerate()
        .map(|(i, t)| Lexeme { offset: i * 10, token: Ok(t) })
        .collect()
}

fn names(v: &[&str]) -> Vec<String> {
    v.iter().map(|s| s.to_string()).collect()
}

fn module(body: Vec<Statement>) -> Ast {
    Ast::Module { body }
}

#[test]
fn empty_module() {
    assert_eq!(parse_start_symbol(&[]), Ok(module(vec![])));
}

#[test]
fn blank_lines_only() {
    let t = lex(vec![Token::Newline, Token::Newline, Token::Newline]);
    assert_eq!(parse_start_symbol(&t), Ok(module(vec![])));
}

#[test]
fn global_names_in_source_order() {
    let t = lex(vec![
        Token::Global,
        ident("a"),
        Token::Comma,
        ident("b"),
        Token::Comma,
        ident("c"),
        Token::Newline,
    ]);
    assert_eq!(
        parse_start_symbol(&t),
        Ok(module(vec![Statement::Global { names: names(&["a", "b", "c"]) }]))
    );
}

#[test]
fn nonlocal_names_in_source_order() {
    let t = lex(vec![Token::Nonlocal, ident("x"), Token::Comma, ident("y"), Token::Newline]);
    assert_eq!(
        parse_start_symbol(&t),
        Ok(module(vec![Statement::Nonlocal { names: names(&["x", "y"]) }]))
    );
}

#[test]
fn single_name() {
    let t = lex(vec![Token::Global, ident("only"), Token::Newline]);
    assert_eq!(
        parse_start_symbol(&t),
        Ok(module(vec![Statement::Global { names: names(&["only"]) }]))
    );
}

#[test]
fn statement_order_across_lines() {
    let t = lex(vec![
        Token::Pass,
        Token::Semi,
        Token::Break,
        Token::Newline,
        Token::Continue,
        Token::Newline,
    ]);
    assert_eq!(
        parse_start_symbol(&t),
        Ok(module(vec![Statement::Pass, Statement::Break, Statement::Continue]))
    );
}

#[test]
fn statements_with_blank_lines_between() {
    let t = lex(vec![
        Token::Newline,
        Token::Pass,
        Token::Newline,
        Token::Newline,
        Token::Global,
        ident("g"),
        Token::Semi,
        Token::Return,
        Token::Number(3),
        Token::Newline,
    ]);
    assert_eq!(
        parse_start_symbol(&t),
        Ok(module(vec![
            Statement::Pass,
            Statement::Global { names: names(&["g"]) },
            Statement::Return { value: Some(Expression::Num(3)) },
        ]))
    );
}

#[test]
fn trailing_semicolon_same_ast() {
    let with_semi = lex(vec![Token::Pass, Token::Semi, Token::Newline]);
    let without = lex(vec![Token::Pass, Token::Newline]);
    assert_eq!(parse_start_symbol(&with_semi), parse_start_symbol(&without));
    assert_eq!(parse_start_symbol(&without), Ok(module(vec![Statement::Pass])));
}

#[test]
fn trailing_comma_in_global_fails() {
    let t = lex(vec![Token::Global, ident("a"), Token::Comma, Token::Newline]);
    assert_eq!(
        parse_start_symbol(&t),
        Err(ParseError::Syntax { expected: Expected::Identifier, found: Some((30, Token::Newline)) })
    );
}

#[test]
fn global_without_name_fails() {
    let t = lex(vec![Token::Global, Token::Newline]);
    assert_eq!(
        parse_start_symbol(&t),
        Err(ParseError::Syntax { expected: Expected::Identifier, found: Some((10, Token::Newline)) })
    );
}

#[test]
fn file_input_reaches_end_of_stream() {
    let t = lex(vec![Token::Pass, Token::Newline, Token::Newline]);
    assert_eq!(parse_file_input(&t, 0), Ok((3, vec![Statement::Pass])));
}

#[test]
fn return_without_value() {
    let t = lex(vec![Token::Return, Token::Newline]);
    assert_eq!(parse_start_symbol(&t), Ok(module(vec![Statement::Return { value: None }])));
}

#[test]
fn return_before_semicolon_has_no_value() {
    let t = lex(vec![Token::Return, Token::Semi, Token::Pass, Token::Newline]);
    assert_eq!(
        parse_start_symbol(&t),
        Ok(module(vec![Statement::Return { value: None }, Statement::Pass]))
    );
}

#[test]
fn return_with_value() {
    let t = lex(vec![Token::Return, Token::Number(42), Token::Newline]);
    assert_eq!(
        parse_start_symbol(&t),
        Ok(module(vec![Statement::Return { value: Some(Expression::Num(42)) }]))
    );
}

#[test]
fn return_stmt_lookahead() {
    let t = lex(vec![Token::Return]);
    assert_eq!(parse_return_stmt(&t, 1), Ok((1, Statement::Return { value: None })));
    let t = lex(vec![Token::Return, Token::Number(7), Token::Newline]);
    assert_eq!(parse_return_stmt(&t, 1), Ok((2, Statement::Return { value: Some(Expression::Num(7)) })));
}

#[test]
fn return_of_general_expression_not_implemented() {
    let t = lex(vec![Token::Return, ident("x"), Token::Newline]);
    assert_eq!(
        parse_start_symbol(&t),
        Err(ParseError::NotImplemented { construct: Construct::Expression, found: Some((10, ident("x"))) })
    );
}

#[test]
fn missing_newline_at_end_of_stream() {
    let t = lex(vec![Token::Pass]);
    assert_eq!(
        parse_start_symbol(&t),
        Err(ParseError::Syntax { expected: Expected::SemiOrNewline, found: None })
    );
}

#[test]
fn two_statements_without_separator() {
    let t = lex(vec![Token::Pass, Token::Pass, Token::Newline]);
    assert_eq!(
        parse_start_symbol(&t),
        Err(ParseError::Syntax { expected: Expected::SemiOrNewline, found: Some((10, Token::Pass)) })
    );
}

#[test]
fn raise_and_yield_not_implemented() {
    let t = lex(vec![Token::Raise, Token::Newline]);
    assert_eq!(
        parse_start_symbol(&t),
        Err(ParseError::NotImplemented { construct: Construct::RaiseStatement, found: Some((0, Token::Raise)) })
    );
    let t = lex(vec![Token::Pass, Token::Semi, Token::Yield, Token::Newline]);
    assert_eq!(
        parse_start_symbol(&t),
        Err(ParseError::NotImplemented { construct: Construct::YieldStatement, found: Some((20, Token::Yield)) })
    );
}

#[test]
fn compound_statement_not_implemented() {
    let t = lex(vec![ident("f"), Token::Newline]);
    assert_eq!(
        parse_start_symbol(&t),
        Err(ParseError::NotImplemented {
            construct: Construct::CompoundStatement,
            found: Some((0, ident("f"))),
        })
    );
    assert_eq!(
        parse_compound_stmt(&t, 0),
        Err(ParseError::NotImplemented {
            construct: Construct::CompoundStatement,
            found: Some((0, ident("f"))),
        })
    );
}

#[test]
fn small_statement_after_semicolon_not_implemented() {
    let t = lex(vec![Token::Pass, Token::Semi, Token::Number(1), Token::Newline]);
    assert_eq!(
        parse_start_symbol(&t),
        Err(ParseError::NotImplemented {
            construct: Construct::SmallStatement,
            found: Some((20, Token::Number(1))),
        })
    );
    let t = lex(vec![Token::Pass, Token::Semi]);
    assert_eq!(
        parse_start_symbol(&t),
        Err(ParseError::NotImplemented { construct: Construct::SmallStatement, found: None })
    );
}

#[test]
fn flow_stmt_on_other_token_is_internal_error() {
    let t = lex(vec![Token::Pass, Token::Newline]);
    assert_eq!(parse_flow_stmt(&t, 0), Err(ParseError::Internal { found: Some((0, Token::Pass)) }));
    assert_eq!(parse_flow_stmt(&t, 2), Err(ParseError::Internal { found: None }));
}

#[test]
fn lexical_error_propagates() {
    let t = vec![
        Lexeme { offset: 0, token: Ok(Token::Global) },
        Lexeme { offset: 7, token: Ok(ident("a")) },
        Lexeme { offset: 9, token: Err("bad character '$'".to_string()) },
    ];
    assert_eq!(
        parse_start_symbol(&t),
        Err(ParseError::Lexical { offset: 9, message: "bad character '$'".to_string() })
    );
    let t = vec![Lexeme { offset: 4, token: Err("unterminated".to_string()) }];
    assert_eq!(
        parse_start_symbol(&t),
        Err(ParseError::Lexical { offset: 4, message: "unterminated".to_string() })
    );
}

#[test]
fn productions_return_the_next_lookahead() {
    let t = lex(vec![
        Token::Global,
        ident("a"),
        Token::Comma,
        ident("b"),
        Token::Semi,
        Token::Nonlocal,
        ident("c"),
        Token::Newline,
    ]);
    assert_eq!(parse_name_list(&t, 1), Ok((4, names(&["a", "b"]))));
    assert_eq!(parse_global_stmt(&t, 1), Ok((4, Statement::Global { names: names(&["a", "b"]) })));
    assert_eq!(parse_nonlocal_stmt(&t, 6), Ok((7, Statement::Nonlocal { names: names(&["c"]) })));
    assert_eq!(parse_small_stmt(&t, 0), Ok((4, Statement::Global { names: names(&["a", "b"]) })));
    assert_eq!(
        parse_simple_stmt(&t, 0),
        Ok((
            8,
            vec![
                Statement::Global { names: names(&["a", "b"]) },
                Statement::Nonlocal { names: names(&["c"]) },
            ]
        ))
    );
    assert_eq!(parse_stmt(&t, 0), parse_simple_stmt(&t, 0));
}

#[test]
fn flow_keywords() {
    let t = lex(vec![Token::Break, Token::Continue]);
    assert_eq!(parse_flow_stmt(&t, 0), Ok((1, Statement::Break)));
    assert_eq!(parse_flow_stmt(&t, 1), Ok((2, Statement::Continue)));
    assert!(valid_flow_stmt(&Token::Return));
    assert!(!valid_flow_stmt(&Token::Pass));
    assert!(valid_simple_stmt(&Token::Pass));
    assert!(valid_simple_stmt(&Token::Yield));
    assert!(!valid_simple_stmt(&Token::Newline));
    assert!(!valid_simple_stmt(&ident("x")));
}

#[test]
fn expected_descriptions() {
    assert_eq!(Expected::Identifier.describe(), "identifier");
    assert_eq!(Expected::SemiOrNewline.describe(), "';' or newline");
    assert_eq!(Expected::EndOfStream.describe(), "end-of-stream");
}

#[test]
fn token_copies_are_equal() {
    assert_eq!(copy_token(&ident("name")), ident("name"));
    assert_eq!(copy_token(&Token::Number(5)), Token::Number(5));
}
