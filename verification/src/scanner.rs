//! The lexical scanner's interface: a finite sequence of tokens, each
//! carrying its kind from a fixed closed set, the exact source slice it
//! covers, and its 1-based source line. The future compiler is the sole
//! consumer of this sequence; the scanner is not yet connected to one, and
//! recognizes no tokens yet.

use vstd::prelude::*;

verus! {

/// The closed set of token kinds: punctuation, one- or two-character
/// operators, literals, language keywords, plus an error token and an
/// end-of-input token.
#[derive(Clone, Copy, Debug, PartialEq, Eq, Structural)]
pub enum TokenType {
    /* single character tokens */
    LeftParen,
    RightParen,
    LeftBrace,
    RightBrace,
    Comma,
    Dot,
    Minus,
    Plus,
    Semicolon,
    Slash,
    Star,
    /* one or two character tokens */
    Bang,
    BangEqual,
    Equal,
    EqualEqual,
    Greater,
    GreaterEqual,
    Less,
    LessEqual,
    /* literals */
    Identifier,
    String,
    Number,
    /* keywords */
    And,
    Class,
    Else,
    False,
    For,
    Fun,
    If,
    Nil,
    Or,
    Print,
    Return,
    Super,
    This,
    True,
    Var,
    While,
    Error,
    Eof,
}

/// One token of the source text.
pub struct Token {
    /// The token's kind.
    pub kind: TokenType,
    /// The exact source slice the token covers.
    pub lexeme: String,
    /// The token's 1-based source line.
    pub line: u32,
}

/// Produces the token sequence of a source text, lazily and in order.
pub struct Scanner {}

impl Scanner {
    /// Creates a scanner over the given source text.
    pub fn new(_source: &str) -> (s: Self) {
        Self {  }
    }

    /// Returns the next token, or `None` at end of input. No tokens are
    /// recognized yet: the stream is empty.
    pub fn next(&mut self) -> (t: Option<Token>)
        ensures
            t is None,
    {
        None
    }
}

} // verus!
