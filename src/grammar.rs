//! The statement grammar as spec functions over a token sequence.
//!
//! Each production takes the sequence and the position of its lookahead, and
//! gives either the position of the first token it did not consume together
//! with what it built, or the error that ends the parse. Lists are stated by
//! right recursion: the item just read is prepended to the rest.
use vstd::prelude::*;
use crate::ast::{Expression, StatementModel};
use crate::token::{Construct, Expected, Lexeme, ParseError, Token};

verus! {

/// The lexeme at `pos` is a lexical error.
pub open spec fn lex_fault(t: Seq<Lexeme>, pos: int) -> bool {
    0 <= pos < t.len() && t[pos].token is Err
}

/// The error reported for the lexical fault at `pos`.
pub open spec fn lex_error(t: Seq<Lexeme>, pos: int) -> ParseError {
    ParseError::Lexical { offset: t[pos].offset, message: t[pos].token->Err_0 }
}

/// The valid token at `pos`; `None` at end of stream.
pub open spec fn token_at(t: Seq<Lexeme>, pos: int) -> Option<Token> {
    if 0 <= pos < t.len() && t[pos].token is Ok {
        Some(t[pos].token->Ok_0)
    } else {
        None
    }
}

/// The valid token at `pos` with its offset, as a diagnostic reports it.
pub open spec fn found_at(t: Seq<Lexeme>, pos: int) -> Option<(usize, Token)> {
    if 0 <= pos < t.len() && t[pos].token is Ok {
        Some((t[pos].offset, t[pos].token->Ok_0))
    } else {
        None
    }
}

/// The lookahead at `pos` is the token `k`.
pub open spec fn at(t: Seq<Lexeme>, pos: int, k: Token) -> bool {
    token_at(t, pos) == Some(k)
}

/// `pre` put in front of the items of a successful result.
pub open spec fn prefixed<X>(pre: Seq<X>, r: Result<(int, Seq<X>), ParseError>) -> Result<
    (int, Seq<X>),
    ParseError,
> {
    match r {
        Ok((p, xs)) => Ok((p, pre + xs)),
        Err(e) => Err(e),
    }
}

/// Keywords that start a flow statement.
pub open spec fn is_flow_start(k: Token) -> bool {
    k is Break || k is Continue || k is Return || k is Raise || k is Yield
}

/// Tokens that start a simple statement.
pub open spec fn is_simple_start(k: Token) -> bool {
    k is Pass || k is Global || k is Nonlocal || is_flow_start(k)
}

/// `NAME (',' NAME)*`
pub open spec fn name_list(t: Seq<Lexeme>, pos: int) -> Result<(int, Seq<String>), ParseError>
    decreases t.len() - pos,
{
    if lex_fault(t, pos) {
        Err(lex_error(t, pos))
    } else {
        match token_at(t, pos) {
            Some(Token::Identifier(name)) => {
                if lex_fault(t, pos + 1) {
                    Err(lex_error(t, pos + 1))
                } else if at(t, pos + 1, Token::Comma) {
                    prefixed(seq![name], name_list(t, pos + 2))
                } else {
                    Ok((pos + 1, seq![name]))
                }
            },
            _ => Err(ParseError::Syntax { expected: Expected::Identifier, found: found_at(t, pos) }),
        }
    }
}

/// What follows `global`: its name list.
pub open spec fn global_stmt(t: Seq<Lexeme>, pos: int) -> Result<(int, StatementModel), ParseError> {
    match name_list(t, pos) {
        Ok((p, names)) => Ok((p, StatementModel::Global(names))),
        Err(e) => Err(e),
    }
}

/// What follows `nonlocal`: its name list.
pub open spec fn nonlocal_stmt(t: Seq<Lexeme>, pos: int) -> Result<(int, StatementModel), ParseError> {
    match name_list(t, pos) {
        Ok((p, names)) => Ok((p, StatementModel::Nonlocal(names))),
        Err(e) => Err(e),
    }
}

/// What follows `return`: nothing before a terminator, else an expression.
pub open spec fn return_stmt(t: Seq<Lexeme>, pos: int) -> Result<(int, StatementModel), ParseError> {
    if lex_fault(t, pos) {
        Err(lex_error(t, pos))
    } else {
        match token_at(t, pos) {
            None => Ok((pos, StatementModel::Return(None))),
            Some(Token::Semi) => Ok((pos, StatementModel::Return(None))),
            Some(Token::Newline) => Ok((pos, StatementModel::Return(None))),
            Some(Token::Number(n)) => Ok((pos + 1, StatementModel::Return(Some(Expression::Num(n))))),
            _ => Err(ParseError::NotImplemented { construct: Construct::Expression, found: found_at(t, pos) }),
        }
    }
}

/// `break | continue | return [expr] | raise | yield`
pub open spec fn flow_stmt(t: Seq<Lexeme>, pos: int) -> Result<(int, StatementModel), ParseError> {
    if lex_fault(t, pos) {
        Err(lex_error(t, pos))
    } else {
        match token_at(t, pos) {
            Some(Token::Break) => Ok((pos + 1, StatementModel::Break)),
            Some(Token::Continue) => Ok((pos + 1, StatementModel::Continue)),
            Some(Token::Return) => return_stmt(t, pos + 1),
            Some(Token::Raise) => Err(
                ParseError::NotImplemented { construct: Construct::RaiseStatement, found: found_at(t, pos) },
            ),
            Some(Token::Yield) => Err(
                ParseError::NotImplemented { construct: Construct::YieldStatement, found: found_at(t, pos) },
            ),
            _ => Err(ParseError::Internal { found: found_at(t, pos) }),
        }
    }
}

/// `pass | global_stmt | nonlocal_stmt | flow_stmt`
pub open spec fn small_stmt(t: Seq<Lexeme>, pos: int) -> Result<(int, StatementModel), ParseError> {
    if lex_fault(t, pos) {
        Err(lex_error(t, pos))
    } else {
        match token_at(t, pos) {
            Some(Token::Pass) => Ok((pos + 1, StatementModel::Pass)),
            Some(Token::Global) => global_stmt(t, pos + 1),
            Some(Token::Nonlocal) => nonlocal_stmt(t, pos + 1),
            Some(k) => if is_flow_start(k) {
                flow_stmt(t, pos)
            } else {
                Err(ParseError::NotImplemented { construct: Construct::SmallStatement, found: found_at(t, pos) })
            },
            None => Err(ParseError::NotImplemented { construct: Construct::SmallStatement, found: None }),
        }
    }
}

/// `small_stmt (';' small_stmt)* [';'] NEWLINE`
pub open spec fn simple_stmt(t: Seq<Lexeme>, pos: int) -> Result<(int, Seq<StatementModel>), ParseError>
    decreases t.len() - pos,
{
    match small_stmt(t, pos) {
        Err(e) => Err(e),
        Ok((p, s)) => if lex_fault(t, p) {
            Err(lex_error(t, p))
        } else if at(t, p, Token::Semi) {
            if lex_fault(t, p + 1) {
                Err(lex_error(t, p + 1))
            } else if at(t, p + 1, Token::Newline) {
                Ok((p + 2, seq![s]))
            } else {
                proof {
                    lemma_small_stmt_advances(t, pos);
                }
                prefixed(seq![s], simple_stmt(t, p + 1))
            }
        } else if at(t, p, Token::Newline) {
            Ok((p + 1, seq![s]))
        } else {
            Err(ParseError::Syntax { expected: Expected::SemiOrNewline, found: found_at(t, p) })
        },
    }
}

/// Compound statements are reserved: every lookahead is refused.
pub open spec fn compound_stmt(t: Seq<Lexeme>, pos: int) -> Result<(int, StatementModel), ParseError> {
    if lex_fault(t, pos) {
        Err(lex_error(t, pos))
    } else {
        Err(ParseError::NotImplemented { construct: Construct::CompoundStatement, found: found_at(t, pos) })
    }
}

/// `simple_stmt | compound_stmt`, chosen by the lookahead.
pub open spec fn stmt(t: Seq<Lexeme>, pos: int) -> Result<(int, Seq<StatementModel>), ParseError> {
    if lex_fault(t, pos) {
        Err(lex_error(t, pos))
    } else if token_at(t, pos) matches Some(k) && is_simple_start(k) {
        simple_stmt(t, pos)
    } else {
        match compound_stmt(t, pos) {
            Ok((p, s)) => Ok((p, seq![s])),
            Err(e) => Err(e),
        }
    }
}

/// `(NEWLINE | stmt)*` up to the end of the stream.
pub open spec fn file_input(t: Seq<Lexeme>, pos: int) -> Result<(int, Seq<StatementModel>), ParseError>
    decreases t.len() - pos,
{
    if t.len() <= pos {
        Ok((pos, seq![]))
    } else if lex_fault(t, pos) {
        Err(lex_error(t, pos))
    } else if at(t, pos, Token::Newline) {
        file_input(t, pos + 1)
    } else {
        match stmt(t, pos) {
            Err(e) => Err(e),
            Ok((p, ss)) => {
                proof {
                    lemma_stmt_advances(t, pos);
                }
                prefixed(ss, file_input(t, p))
            },
        }
    }
}

/// The whole token sequence as a module, which must end at end of stream.
pub open spec fn start_symbol(t: Seq<Lexeme>) -> Result<Seq<StatementModel>, ParseError> {
    match file_input(t, 0) {
        Err(e) => Err(e),
        Ok((p, body)) => if lex_fault(t, p) {
            Err(lex_error(t, p))
        } else if p < t.len() {
            Err(ParseError::Syntax { expected: Expected::EndOfStream, found: found_at(t, p) })
        } else {
            Ok(body)
        },
    }
}

/// A name list that succeeds consumes at least one token and stays in the stream.
pub proof fn lemma_name_list_advances(t: Seq<Lexeme>, pos: int)
    ensures
        name_list(t, pos) matches Ok((p, _)) ==> pos < p <= t.len(),
    decreases t.len() - pos,
{
    if !lex_fault(t, pos) && (token_at(t, pos) is Some && token_at(t, pos)->Some_0 is Identifier) && !lex_fault(
        t,
        pos + 1,
    ) && at(t, pos + 1, Token::Comma) {
        lemma_name_list_advances(t, pos + 2);
    }
}

/// A small statement that succeeds consumes at least one token and stays in the stream.
pub proof fn lemma_small_stmt_advances(t: Seq<Lexeme>, pos: int)
    ensures
        small_stmt(t, pos) matches Ok((p, _)) ==> pos < p <= t.len(),
{
    lemma_name_list_advances(t, pos + 1);
}

/// A simple statement that succeeds consumes at least one token and stays in the stream.
pub proof fn lemma_simple_stmt_advances(t: Seq<Lexeme>, pos: int)
    ensures
        simple_stmt(t, pos) matches Ok((p, _)) ==> pos < p <= t.len(),
    decreases t.len() - pos,
{
    lemma_small_stmt_advances(t, pos);
    if let Ok((p, _)) = small_stmt(t, pos) {
        if !lex_fault(t, p) && at(t, p, Token::Semi) && !lex_fault(t, p + 1) && !at(t, p + 1, Token::Newline) {
            lemma_simple_stmt_advances(t, p + 1);
        }
    }
}

/// A statement that succeeds consumes at least one token and stays in the stream.
pub proof fn lemma_stmt_advances(t: Seq<Lexeme>, pos: int)
    ensures
        stmt(t, pos) matches Ok((p, _)) ==> pos < p <= t.len(),
{
    lemma_simple_stmt_advances(t, pos);
}

} // verus!
