use vstd::prelude::*;

verus! {

/// The lexical categories the parser reads.
#[derive(Debug, Clone, PartialEq, Eq)]
pub enum Token {
    Identifier(String),
    Number(usize),
    Pass,
    Break,
    Continue,
    Return,
    Raise,
    Yield,
    Global,
    Nonlocal,
    Semi,
    Comma,
    Newline,
}

/// One token of the stream with its source offset; `token` is `Err` with a
/// message where the lexer found an invalid lexeme at that offset.
#[derive(Debug, PartialEq, Eq)]
pub struct Lexeme {
    pub offset: usize,
    pub token: Result<Token, String>,
}

/// What the parser was looking for when it met an unexpected token.
#[derive(Debug, Clone, Copy, PartialEq, Eq)]
pub enum Expected {
    Identifier,
    SemiOrNewline,
    EndOfStream,
}

/// Constructs that the grammar reserves but does not define yet.
#[derive(Debug, Clone, Copy, PartialEq, Eq)]
pub enum Construct {
    RaiseStatement,
    YieldStatement,
    Expression,
    SmallStatement,
    CompoundStatement,
}

/// Why a parse failed. `found` is the offending token with its offset, or
/// `None` at end of stream.
#[derive(Debug, Clone, PartialEq, Eq)]
pub enum ParseError {
    /// The token source reported an invalid lexeme.
    Lexical { offset: usize, message: String },
    /// An expected token or category was not found.
    Syntax { expected: Expected, found: Option<(usize, Token)> },
    /// The production is reserved but not defined.
    NotImplemented { construct: Construct, found: Option<(usize, Token)> },
    /// A parsing function was handed a lookahead its caller should have ruled out.
    Internal { found: Option<(usize, Token)> },
}

impl Expected {
    /// A human-readable name of the expected construct.
    pub fn describe(&self) -> (r: &'static str)
        ensures
            *self == Expected::Identifier ==> r@ == "identifier"@,
            *self == Expected::SemiOrNewline ==> r@ == "';' or newline"@,
            *self == Expected::EndOfStream ==> r@ == "end-of-stream"@,
    {
        match self {
            Expected::Identifier => "identifier",
            Expected::SemiOrNewline => "';' or newline",
            Expected::EndOfStream => "end-of-stream",
        }
    }
}

/// A copy of `t`, equal to it.
pub fn copy_token(t: &Token) -> (r: Token)
    ensures
        r == *t,
{
    match t {
        Token::Identifier(s) => Token::Identifier(s.clone()),
        Token::Number(n) => Token::Number(*n),
        Token::Pass => Token::Pass,
        Token::Break => Token::Break,
        Token::Continue => Token::Continue,
        Token::Return => Token::Return,
        Token::Raise => Token::Raise,
        Token::Yield => Token::Yield,
        Token::Global => Token::Global,
        Token::Nonlocal => Token::Nonlocal,
        Token::Semi => Token::Semi,
        Token::Comma => Token::Comma,
        Token::Newline => Token::Newline,
    }
}

} // verus!
