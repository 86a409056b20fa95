//! Properties of the grammar, stated over the spec functions that the
//! parsers' contracts use.
use vstd::prelude::*;
use crate::ast::{Expression, StatementModel};
use crate::grammar::{
    at, file_input, flow_stmt, found_at, is_simple_start, lex_fault, name_list, simple_stmt,
    small_stmt, start_symbol, stmt, token_at,
};
use crate::token::{Expected, Lexeme, ParseError, Token};

verus! {

/// From `pos`, the tokens spell `names[0] , names[1] , ... , names[n-1]`.
pub open spec fn spells_names(t: Seq<Lexeme>, pos: int, names: Seq<String>) -> bool {
    &&& 0 <= pos
    &&& names.len() > 0
    &&& pos + 2 * names.len() - 1 <= t.len()
    &&& forall|i: int|
        0 <= i < names.len() ==> #[trigger] t[pos + 2 * i].token == Ok::<Token, String>(
            Token::Identifier(names[i]),
        )
    &&& forall|i: int| 0 <= i < names.len() - 1 ==> #[trigger] t[pos + 2 * i + 1].token == Ok::<Token, String>(Token::Comma)
}

/// A name list yields its names in the order the tokens spell them, and stops
/// after the last one.
pub proof fn lemma_name_list_order(t: Seq<Lexeme>, pos: int, names: Seq<String>)
    requires
        spells_names(t, pos, names),
        !lex_fault(t, pos + 2 * names.len() - 1),
        !at(t, pos + 2 * names.len() - 1, Token::Comma),
    ensures
        name_list(t, pos) == Ok::<(int, Seq<String>), ParseError>((pos + 2 * names.len() - 1, names)),
    decreases names.len(),
{
    assert(t[pos + 2 * 0].token == Ok::<Token, String>(Token::Identifier(names[0])));
    assert(t[pos].token == Ok::<Token, String>(Token::Identifier(names[0])));
    if names.len() == 1 {
        assert(seq![names[0]] =~= names);
    } else {
        let rest = names.drop_first();
        assert(t[pos + 2 * 0 + 1].token == Ok::<Token, String>(Token::Comma));
        assert(t[pos + 1].token == Ok::<Token, String>(Token::Comma));
        assert forall|i: int| 0 <= i < rest.len() implies #[trigger] t[(pos + 2) + 2 * i].token
            == Ok::<Token, String>(Token::Identifier(rest[i])) by {
            assert(t[pos + 2 * (i + 1)].token == Ok::<Token, String>(Token::Identifier(names[i + 1])));
            assert(pos + 2 * (i + 1) == (pos + 2) + 2 * i);
        }
        assert forall|i: int| 0 <= i < rest.len() - 1 implies #[trigger] t[(pos + 2) + 2 * i + 1].token
            == Ok::<Token, String>(Token::Comma) by {
            assert(t[pos + 2 * (i + 1) + 1].token == Ok::<Token, String>(Token::Comma));
            assert(pos + 2 * (i + 1) + 1 == (pos + 2) + 2 * i + 1);
        }
        lemma_name_list_order(t, pos + 2, rest);
        assert(seq![names[0]] + rest =~= names);
    }
}

/// For any names separated by commas after `global` or `nonlocal`, the
/// statement holds exactly those names, in left-to-right source order.
pub proof fn lemma_names_in_source_order(t: Seq<Lexeme>, pos: int, names: Seq<String>)
    requires
        at(t, pos, Token::Global) || at(t, pos, Token::Nonlocal),
        spells_names(t, pos + 1, names),
        !lex_fault(t, pos + 2 * names.len()),
        !at(t, pos + 2 * names.len(), Token::Comma),
    ensures
        at(t, pos, Token::Global) ==> small_stmt(t, pos) == Ok::<(int, StatementModel), ParseError>(
            (pos + 2 * names.len(), StatementModel::Global(names)),
        ),
        at(t, pos, Token::Nonlocal) ==> small_stmt(t, pos) == Ok::<(int, StatementModel), ParseError>(
            (pos + 2 * names.len(), StatementModel::Nonlocal(names)),
        ),
{
    lemma_name_list_order(t, pos + 1, names);
}

/// A small statement that succeeds starts with a valid simple-statement token.
pub proof fn lemma_small_stmt_start(t: Seq<Lexeme>, pos: int)
    ensures
        small_stmt(t, pos) is Ok ==> !lex_fault(t, pos) && token_at(t, pos) is Some && is_simple_start(
            token_at(t, pos)->Some_0,
        ),
{
}

/// A line `S1 ; S2` followed by a line `S3` makes a module whose statements
/// are exactly `[S1, S2, S3]`, in that order.
pub proof fn lemma_statement_order(
    t: Seq<Lexeme>,
    p1: int,
    p2: int,
    p3: int,
    s1: StatementModel,
    s2: StatementModel,
    s3: StatementModel,
)
    requires
        small_stmt(t, 0) == Ok::<(int, StatementModel), ParseError>((p1, s1)),
        at(t, p1, Token::Semi),
        small_stmt(t, p1 + 1) == Ok::<(int, StatementModel), ParseError>((p2, s2)),
        at(t, p2, Token::Newline),
        small_stmt(t, p2 + 1) == Ok::<(int, StatementModel), ParseError>((p3, s3)),
        at(t, p3, Token::Newline),
        p3 + 1 == t.len(),
    ensures
        start_symbol(t) == Ok::<Seq<StatementModel>, ParseError>(seq![s1, s2, s3]),
{
    lemma_small_stmt_start(t, 0);
    lemma_small_stmt_start(t, p1 + 1);
    lemma_small_stmt_start(t, p2 + 1);
    assert(simple_stmt(t, p1 + 1) == Ok::<(int, Seq<StatementModel>), ParseError>((p2 + 1, seq![s2])));
    assert(simple_stmt(t, 0) == Ok::<(int, Seq<StatementModel>), ParseError>((p2 + 1, seq![s1] + seq![s2])));
    assert(stmt(t, p2 + 1) == Ok::<(int, Seq<StatementModel>), ParseError>((p3 + 1, seq![s3])));
    assert(file_input(t, p3 + 1) == Ok::<(int, Seq<StatementModel>), ParseError>((p3 + 1, seq![])));
    assert(file_input(t, p2 + 1) == Ok::<(int, Seq<StatementModel>), ParseError>((p3 + 1, seq![s3] + seq![])));
    assert(seq![s1] + seq![s2] + (seq![s3] + seq![]) =~= seq![s1, s2, s3]);
}

/// `S ;` and `S` on a line of their own make the same module.
pub proof fn lemma_trailing_semicolon(
    with_semi: Seq<Lexeme>,
    without: Seq<Lexeme>,
    p: int,
    q: int,
    s: StatementModel,
)
    requires
        small_stmt(with_semi, 0) == Ok::<(int, StatementModel), ParseError>((p, s)),
        at(with_semi, p, Token::Semi),
        at(with_semi, p + 1, Token::Newline),
        p + 2 == with_semi.len(),
        small_stmt(without, 0) == Ok::<(int, StatementModel), ParseError>((q, s)),
        at(without, q, Token::Newline),
        q + 1 == without.len(),
    ensures
        start_symbol(with_semi) == start_symbol(without),
        start_symbol(without) == Ok::<Seq<StatementModel>, ParseError>(seq![s]),
{
    lemma_small_stmt_start(with_semi, 0);
    lemma_small_stmt_start(without, 0);
    assert(file_input(with_semi, p + 2) == Ok::<(int, Seq<StatementModel>), ParseError>((p + 2, seq![])));
    assert(file_input(without, q + 1) == Ok::<(int, Seq<StatementModel>), ParseError>((q + 1, seq![])));
    assert(seq![s] + seq![] =~= seq![s]);
}

/// From `pos` on, a stream of newlines only is a module with no statements.
proof fn lemma_blank_lines_from(t: Seq<Lexeme>, pos: int)
    requires
        0 <= pos <= t.len(),
        forall|i: int| 0 <= i < t.len() ==> #[trigger] t[i].token == Ok::<Token, String>(Token::Newline),
    ensures
        file_input(t, pos) == Ok::<(int, Seq<StatementModel>), ParseError>((t.len() as int, seq![])),
    decreases t.len() - pos,
{
    if pos < t.len() {
        lemma_blank_lines_from(t, pos + 1);
    }
}

/// A stream of newlines only, the empty stream among them, parses to a
/// module with no statements.
pub proof fn lemma_blank_lines(t: Seq<Lexeme>)
    requires
        forall|i: int| 0 <= i < t.len() ==> #[trigger] t[i].token == Ok::<Token, String>(Token::Newline),
    ensures
        start_symbol(t) == Ok::<Seq<StatementModel>, ParseError>(seq![]),
{
    lemma_blank_lines_from(t, 0);
}

/// `global NAME ,` or `nonlocal NAME ,` followed by a newline fails with
/// "expected identifier" at the newline, rather than dropping the comma.
pub proof fn lemma_trailing_comma_fails(t: Seq<Lexeme>, name: String)
    requires
        at(t, 0, Token::Global) || at(t, 0, Token::Nonlocal),
        at(t, 1, Token::Identifier(name)),
        at(t, 2, Token::Comma),
        at(t, 3, Token::Newline),
    ensures
        start_symbol(t) == Err::<Seq<StatementModel>, ParseError>(
            ParseError::Syntax { expected: Expected::Identifier, found: Some((t[3].offset, Token::Newline)) },
        ),
        found_at(t, 3) == Some((t[3].offset, Token::Newline)),
{
    assert(name_list(t, 3) is Err);
    assert(name_list(t, 1) == name_list(t, 3));
}

/// The module grammar only succeeds at the end of the stream.
pub proof fn lemma_file_input_reaches_end(t: Seq<Lexeme>, pos: int)
    requires
        0 <= pos <= t.len(),
    ensures
        file_input(t, pos) matches Ok((p, _)) ==> p == t.len(),
    decreases t.len() - pos,
{
    if pos < t.len() && !lex_fault(t, pos) {
        if at(t, pos, Token::Newline) {
            lemma_file_input_reaches_end(t, pos + 1);
        } else if let Ok((p, _)) = stmt(t, pos) {
            crate::grammar::lemma_stmt_advances(t, pos);
            lemma_file_input_reaches_end(t, p);
        }
    }
}

/// A parse succeeds only where the module grammar ends at the end of the
/// stream; a token left over fails with "expected end-of-stream".
pub proof fn lemma_end_of_stream_enforced(t: Seq<Lexeme>)
    ensures
        file_input(t, 0) matches Ok((p, body)) ==> p == t.len() && start_symbol(t) == Ok::<
            Seq<StatementModel>,
            ParseError,
        >(body),
        file_input(t, 0) matches Ok((p, _)) ==> (p < t.len() && !lex_fault(t, p) ==> start_symbol(t)
            == Err::<Seq<StatementModel>, ParseError>(
            ParseError::Syntax { expected: Expected::EndOfStream, found: found_at(t, p) },
        )),
{
    lemma_file_input_reaches_end(t, 0);
}

/// `return` before a terminator or the end of the stream has no value;
/// `return` before a number returns that number.
pub proof fn lemma_return_value(t: Seq<Lexeme>, pos: int)
    requires
        at(t, pos, Token::Return),
    ensures
        pos + 1 == t.len() || at(t, pos + 1, Token::Semi) || at(t, pos + 1, Token::Newline) ==> flow_stmt(t, pos)
            == Ok::<(int, StatementModel), ParseError>((pos + 1, StatementModel::Return(None))),
        token_at(t, pos + 1) matches Some(Token::Number(n)) ==> flow_stmt(t, pos) == Ok::<
            (int, StatementModel),
            ParseError,
        >((pos + 2, StatementModel::Return(Some(Expression::Num(n))))),
        flow_stmt(t, pos) == small_stmt(t, pos),
{
}

} // verus!
