//! Executable parsers, one per production of `grammar`.
//!
//! Every parser takes the token slice and the position of its lookahead, and
//! returns the position of the first token it did not consume with what it
//! built. Lists are read by loops that append in source order.
use vstd::prelude::*;
use crate::ast::{lemma_models_concat, models, Ast, Expression, Statement, StatementModel};
use crate::grammar::{
    compound_stmt, file_input, flow_stmt, found_at, global_stmt, is_flow_start, is_simple_start, lex_error,
    lex_fault, lemma_small_stmt_advances, lemma_stmt_advances, name_list,
    nonlocal_stmt, prefixed, return_stmt, simple_stmt, small_stmt, start_symbol, stmt, token_at,
};
use crate::token::{copy_token, Construct, Expected, Lexeme, ParseError, Token};

verus! {

/// The result of a name-list parser, as the grammar states it.
pub open spec fn names_result(r: Result<(usize, Vec<String>), ParseError>) -> Result<
    (int, Seq<String>),
    ParseError,
> {
    match r {
        Ok((p, names)) => Ok((p as int, names@)),
        Err(e) => Err(e),
    }
}

/// The result of a one-statement parser, as the grammar states it.
pub open spec fn stmt_result(r: Result<(usize, Statement), ParseError>) -> Result<
    (int, StatementModel),
    ParseError,
> {
    match r {
        Ok((p, s)) => Ok((p as int, s@)),
        Err(e) => Err(e),
    }
}

/// The result of a statement-list parser, as the grammar states it.
pub open spec fn stmts_result(r: Result<(usize, Vec<Statement>), ParseError>) -> Result<
    (int, Seq<StatementModel>),
    ParseError,
> {
    match r {
        Ok((p, body)) => Ok((p as int, models(body@))),
        Err(e) => Err(e),
    }
}

/// Putting `a` then `b` in front of a result is putting `a + b` in front of it.
proof fn lemma_prefixed_twice<X>(a: Seq<X>, b: Seq<X>, r: Result<(int, Seq<X>), ParseError>)
    ensures
        prefixed(a + b, r) == prefixed(a, prefixed(b, r)),
{
    if let Ok((p, xs)) = r {
        assert(a + b + xs =~= a + (b + xs));
    }
}

/// Fails with the lexical error that the lexeme at `pos` carries, if any.
fn check_lexeme(tokens: &[Lexeme], pos: usize) -> (r: Result<(), ParseError>)
    ensures
        r is Err <==> lex_fault(tokens@, pos as int),
        r is Err ==> r == Err::<(), ParseError>(lex_error(tokens@, pos as int)),
{
    if pos < tokens.len() {
        if let Err(message) = &tokens[pos].token {
            return Err(ParseError::Lexical { offset: tokens[pos].offset, message: message.clone() });
        }
    }
    Ok(())
}

/// A copy of the valid token at `pos`; `None` at end of stream.
fn look(tokens: &[Lexeme], pos: usize) -> (r: Option<Token>)
    ensures
        r == token_at(tokens@, pos as int),
        r is Some ==> pos < tokens.len(),
{
    if pos < tokens.len() {
        match &tokens[pos].token {
            Ok(k) => Some(copy_token(k)),
            Err(_) => None,
        }
    } else {
        None
    }
}

/// The valid token at `pos` with its offset, for a diagnostic.
fn found(tokens: &[Lexeme], pos: usize) -> (r: Option<(usize, Token)>)
    ensures
        r == found_at(tokens@, pos as int),
{
    if pos < tokens.len() {
        match &tokens[pos].token {
            Ok(k) => Some((tokens[pos].offset, copy_token(k))),
            Err(_) => None,
        }
    } else {
        None
    }
}

/// Whether `k` starts a flow statement.
pub fn valid_flow_stmt(k: &Token) -> (r: bool)
    ensures
        r == is_flow_start(*k),
{
    match k {
        Token::Break | Token::Continue | Token::Return | Token::Raise | Token::Yield => true,
        _ => false,
    }
}

/// Whether `k` starts a simple statement.
pub fn valid_simple_stmt(k: &Token) -> (r: bool)
    ensures
        r == is_simple_start(*k),
{
    match k {
        Token::Pass | Token::Global | Token::Nonlocal => true,
        _ => valid_flow_stmt(k),
    }
}

/// Parses `NAME (',' NAME)*` from `pos`, keeping the names in source order.
pub fn parse_name_list(tokens: &[Lexeme], pos: usize) -> (r: Result<(usize, Vec<String>), ParseError>)
    ensures
        names_result(r) == name_list(tokens@, pos as int),
{
    let ghost t = tokens@;
    let mut names: Vec<String> = Vec::new();
    let mut cur: usize = pos;
    loop
        invariant
            t == tokens@,
            name_list(t, pos as int) == prefixed(names@, name_list(t, cur as int)),
        decreases t.len() - cur,
    {
        if let Err(e) = check_lexeme(tokens, cur) {
            return Err(e);
        }
        match look(tokens, cur) {
            Some(Token::Identifier(name)) => {
                if let Err(e) = check_lexeme(tokens, cur + 1) {
                    return Err(e);
                }
                let ghost before = names@;
                names.push(name);
                proof {
                    assert(names@ =~= before + seq![name]);
                    lemma_prefixed_twice(before, seq![name], name_list(t, cur + 2));
                }
                match look(tokens, cur + 1) {
                    Some(Token::Comma) => {
                        cur = cur + 2;
                    },
                    _ => {
                        return Ok((cur + 1, names));
                    },
                }
            },
            _ => {
                return Err(ParseError::Syntax { expected: Expected::Identifier, found: found(tokens, cur) });
            },
        }
    }
}

/// Parses the names of a `global` statement; `pos` is just past the keyword.
pub fn parse_global_stmt(tokens: &[Lexeme], pos: usize) -> (r: Result<(usize, Statement), ParseError>)
    ensures
        stmt_result(r) == global_stmt(tokens@, pos as int),
{
    match parse_name_list(tokens, pos) {
        Ok((p, names)) => Ok((p, Statement::Global { names })),
        Err(e) => Err(e),
    }
}

/// Parses the names of a `nonlocal` statement; `pos` is just past the keyword.
pub fn parse_nonlocal_stmt(tokens: &[Lexeme], pos: usize) -> (r: Result<(usize, Statement), ParseError>)
    ensures
        stmt_result(r) == nonlocal_stmt(tokens@, pos as int),
{
    match parse_name_list(tokens, pos) {
        Ok((p, names)) => Ok((p, Statement::Nonlocal { names })),
        Err(e) => Err(e),
    }
}

/// Parses what follows `return`; `pos` is just past the keyword.
pub fn parse_return_stmt(tokens: &[Lexeme], pos: usize) -> (r: Result<(usize, Statement), ParseError>)
    requires
        pos <= tokens@.len(),
    ensures
        stmt_result(r) == return_stmt(tokens@, pos as int),
{
    if let Err(e) = check_lexeme(tokens, pos) {
        return Err(e);
    }
    match look(tokens, pos) {
        None | Some(Token::Semi) | Some(Token::Newline) => Ok((pos, Statement::Return { value: None })),
        Some(Token::Number(n)) => Ok((pos + 1, Statement::Return { value: Some(Expression::Num(n)) })),
        _ => Err(ParseError::NotImplemented { construct: Construct::Expression, found: found(tokens, pos) }),
    }
}

/// Parses a flow statement whose keyword is the lookahead at `pos`.
pub fn parse_flow_stmt(tokens: &[Lexeme], pos: usize) -> (r: Result<(usize, Statement), ParseError>)
    ensures
        stmt_result(r) == flow_stmt(tokens@, pos as int),
{
    if let Err(e) = check_lexeme(tokens, pos) {
        return Err(e);
    }
    match look(tokens, pos) {
        Some(Token::Break) => Ok((pos + 1, Statement::Break)),
        Some(Token::Continue) => Ok((pos + 1, Statement::Continue)),
        Some(Token::Return) => parse_return_stmt(tokens, pos + 1),
        Some(Token::Raise) => Err(
            ParseError::NotImplemented { construct: Construct::RaiseStatement, found: found(tokens, pos) },
        ),
        Some(Token::Yield) => Err(
            ParseError::NotImplemented { construct: Construct::YieldStatement, found: found(tokens, pos) },
        ),
        _ => Err(ParseError::Internal { found: found(tokens, pos) }),
    }
}

/// Parses one small statement whose first token is the lookahead at `pos`.
pub fn parse_small_stmt(tokens: &[Lexeme], pos: usize) -> (r: Result<(usize, Statement), ParseError>)
    ensures
        stmt_result(r) == small_stmt(tokens@, pos as int),
{
    if let Err(e) = check_lexeme(tokens, pos) {
        return Err(e);
    }
    match look(tokens, pos) {
        Some(Token::Pass) => Ok((pos + 1, Statement::Pass)),
        Some(Token::Global) => parse_global_stmt(tokens, pos + 1),
        Some(Token::Nonlocal) => parse_nonlocal_stmt(tokens, pos + 1),
        Some(k) => if valid_flow_stmt(&k) {
            parse_flow_stmt(tokens, pos)
        } else {
            Err(ParseError::NotImplemented { construct: Construct::SmallStatement, found: found(tokens, pos) })
        },
        None => Err(ParseError::NotImplemented { construct: Construct::SmallStatement, found: None }),
    }
}

/// Parses `small_stmt (';' small_stmt)* [';'] NEWLINE` from `pos`, keeping the
/// statements in source order.
pub fn parse_simple_stmt(tokens: &[Lexeme], pos: usize) -> (r: Result<(usize, Vec<Statement>), ParseError>)
    ensures
        stmts_result(r) == simple_stmt(tokens@, pos as int),
{
    let ghost t = tokens@;
    let mut stmts: Vec<Statement> = Vec::new();
    let mut cur: usize = pos;
    loop
        invariant
            t == tokens@,
            simple_stmt(t, pos as int) == prefixed(models(stmts@), simple_stmt(t, cur as int)),
        decreases t.len() - cur,
    {
        let (p, small) = match parse_small_stmt(tokens, cur) {
            Ok(parsed) => parsed,
            Err(e) => return Err(e),
        };
        proof {
            lemma_small_stmt_advances(t, cur as int);
        }
        if let Err(e) = check_lexeme(tokens, p) {
            return Err(e);
        }
        let ghost before = stmts@;
        match look(tokens, p) {
            Some(Token::Semi) => {
                if let Err(e) = check_lexeme(tokens, p + 1) {
                    return Err(e);
                }
                stmts.push(small);
                proof {
                    assert(models(stmts@) =~= models(before) + seq![small@]);
                    lemma_prefixed_twice(models(before), seq![small@], simple_stmt(t, p + 1));
                }
                match look(tokens, p + 1) {
                    Some(Token::Newline) => {
                        return Ok((p + 2, stmts));
                    },
                    _ => {
                        cur = p + 1;
                    },
                }
            },
            Some(Token::Newline) => {
                stmts.push(small);
                proof {
                    assert(models(stmts@) =~= models(before) + seq![small@]);
                }
                return Ok((p + 1, stmts));
            },
            _ => {
                return Err(ParseError::Syntax { expected: Expected::SemiOrNewline, found: found(tokens, p) });
            },
        }
    }
}

/// Parses a compound statement; none is defined, so every lookahead is refused.
pub fn parse_compound_stmt(tokens: &[Lexeme], pos: usize) -> (r: Result<(usize, Statement), ParseError>)
    ensures
        stmt_result(r) == compound_stmt(tokens@, pos as int),
{
    if let Err(e) = check_lexeme(tokens, pos) {
        return Err(e);
    }
    Err(ParseError::NotImplemented { construct: Construct::CompoundStatement, found: found(tokens, pos) })
}

/// Parses one statement, simple or compound as the lookahead at `pos` decides.
pub fn parse_stmt(tokens: &[Lexeme], pos: usize) -> (r: Result<(usize, Vec<Statement>), ParseError>)
    ensures
        stmts_result(r) == stmt(tokens@, pos as int),
{
    if let Err(e) = check_lexeme(tokens, pos) {
        return Err(e);
    }
    let simple = match look(tokens, pos) {
        Some(k) => valid_simple_stmt(&k),
        None => false,
    };
    if simple {
        parse_simple_stmt(tokens, pos)
    } else {
        match parse_compound_stmt(tokens, pos) {
            Ok((p, s)) => {
                let stmts = vec![s];
                proof {
                    assert(models(stmts@) =~= seq![s@]);
                }
                Ok((p, stmts))
            },
            Err(e) => Err(e),
        }
    }
}

/// Parses statements and blank lines from `pos` up to the end of the stream,
/// keeping the statements in source order.
pub fn parse_file_input(tokens: &[Lexeme], pos: usize) -> (r: Result<(usize, Vec<Statement>), ParseError>)
    ensures
        stmts_result(r) == file_input(tokens@, pos as int),
{
    let ghost t = tokens@;
    let mut body: Vec<Statement> = Vec::new();
    let mut cur: usize = pos;
    loop
        invariant
            t == tokens@,
            file_input(t, pos as int) == prefixed(models(body@), file_input(t, cur as int)),
        decreases t.len() - cur,
    {
        if cur >= tokens.len() {
            proof {
                assert(models(body@) + seq![] =~= models(body@));
            }
            return Ok((cur, body));
        }
        if let Err(e) = check_lexeme(tokens, cur) {
            return Err(e);
        }
        match look(tokens, cur) {
            Some(Token::Newline) => {
                cur = cur + 1;
            },
            _ => {
                let (p, mut stmts) = match parse_stmt(tokens, cur) {
                    Ok(parsed) => parsed,
                    Err(e) => return Err(e),
                };
                proof {
                    lemma_stmt_advances(t, cur as int);
                    lemma_models_concat(body@, stmts@);
                    lemma_prefixed_twice(models(body@), models(stmts@), file_input(t, p as int));
                }
                body.append(&mut stmts);
                cur = p;
            },
        }
    }
}

/// Parses a whole token sequence as a module, which must reach the end of the stream.
pub fn parse_start_symbol(tokens: &[Lexeme]) -> (r: Result<Ast, ParseError>)
    ensures
        match r {
            Ok(ast) => start_symbol(tokens@) == Ok::<Seq<StatementModel>, ParseError>(ast@),
            Err(e) => start_symbol(tokens@) == Err::<Seq<StatementModel>, ParseError>(e),
        },
{
    let (p, body) = match parse_file_input(tokens, 0) {
        Ok(parsed) => parsed,
        Err(e) => return Err(e),
    };
    if let Err(e) = check_lexeme(tokens, p) {
        return Err(e);
    }
    if p < tokens.len() {
        return Err(ParseError::Syntax { expected: Expected::EndOfStream, found: found(tokens, p) });
    }
    Ok(Ast::Module { body })
}

} // verus!
