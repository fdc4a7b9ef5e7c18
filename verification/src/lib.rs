//! Front end of the Ria language: a lexer that turns source text into spanned
//! tokens and a recursive-descent parser that turns those tokens into a syntax
//! tree.
//!
//! The rules are stated twice. `lexical` and `grammar` say, as mathematical
//! functions, which tokens a text holds and which tree a sequence of tokens
//! makes; `lexer_laws` and `grammar_laws` prove what follows from them.
//! `lexer` and `parser` are the executable code, proved to compute exactly
//! what the rules say. The parser reads its tokens through `stream`'s
//! `TokenSource`, from tokens held in memory or, with `lexer_stream`, from a
//! lexer that is driven as the parser goes.

pub mod span;
pub mod token;
pub mod lexical;
pub mod lexer;
pub mod lexer_laws;
pub mod failure;
pub mod stream;
pub mod lexer_stream;
pub mod ast;
pub mod grammar;
pub mod grammar_laws;
pub mod parser;
