pub mod symbols;

pub use symbols::{Lexer, LexerError, SourceLocation, Token, TokenKind};
