//! Parse failures.

use std::ops::Range;
use vstd::prelude::*;
use crate::token::Symbol;

verus! {

/// Whether a failure lets the caller try another alternative.
#[derive(Clone, Copy, Debug, PartialEq, Eq, Structural)]
pub enum FailureKind {
    /// This alternative does not apply here; the caller may try another one
    /// at the same position.
    Recoverable,
    /// A construct was clearly begun and is malformed; no alternative is
    /// tried and the failure goes up to the top.
    Fatal,
}

/// What the parser expected where it failed.
#[derive(Clone, Copy, Debug, PartialEq, Eq)]
pub enum Expectation {
    /// Any token at all.
    Token,
    /// An identifier.
    Identifier,
    /// The given symbol.
    Symbol(Symbol),
    /// The given word, written as an identifier.
    Keyword(&'static str),
    /// A statement separator.
    NewLine,
    /// An expression.
    Expression,
    /// The name that a definition binds.
    DefinitionName,
    /// A list of definitions.
    DefList,
    /// The function of a call.
    Function,
    /// The argument of a call.
    Argument,
    /// The end of the tokens.
    EndOfInput,
}

/// The literal text of a symbol.
pub open spec fn symbol_text(symbol: Symbol) -> Seq<char> {
    match symbol {
        Symbol::Lambda => "\\"@,
        Symbol::Arrow => "->"@,
        Symbol::Define => "="@,
        Symbol::OpenParen => "("@,
        Symbol::CloseParen => ")"@,
    }
}

/// The words that name an expectation to a reader. A symbol is named by its
/// literal text, and a word by itself.
pub open spec fn expectation_label(expected: Expectation) -> Seq<char> {
    match expected {
        Expectation::Token => "a token"@,
        Expectation::Identifier => "an identifier"@,
        Expectation::Symbol(symbol) => symbol_text(symbol),
        Expectation::Keyword(word) => word@,
        Expectation::NewLine => "a newline"@,
        Expectation::Expression => "an expression"@,
        Expectation::DefinitionName => "identifier"@,
        Expectation::DefList => "def list"@,
        Expectation::Function => "a function"@,
        Expectation::Argument => "an argument"@,
        Expectation::EndOfInput => "end of input"@,
    }
}

impl Symbol {
    /// The literal text of the symbol.
    pub fn text(&self) -> (text: &'static str)
        ensures
            text@ == symbol_text(*self),
    {
        match self {
            Symbol::Lambda => "\\",
            Symbol::Arrow => "->",
            Symbol::Define => "=",
            Symbol::OpenParen => "(",
            Symbol::CloseParen => ")",
        }
    }
}

impl Expectation {
    /// The words that name the expectation to a reader.
    pub fn label(&self) -> (label: &'static str)
        ensures
            label@ == expectation_label(*self),
    {
        match self {
            Expectation::Token => "a token",
            Expectation::Identifier => "an identifier",
            Expectation::Symbol(symbol) => symbol.text(),
            Expectation::Keyword(word) => word,
            Expectation::NewLine => "a newline",
            Expectation::Expression => "an expression",
            Expectation::DefinitionName => "identifier",
            Expectation::DefList => "def list",
            Expectation::Function => "a function",
            Expectation::Argument => "an argument",
            Expectation::EndOfInput => "end of input",
        }
    }
}

/// A parse failure: its kind, the span of the source at which it occurred,
/// and what was expected there.
///
/// The failure of a primitive names what that primitive expects. A
/// composite rule that fails because one of its parts failed recoverably may
/// name the part in its own terms; a fatal failure is handed up unchanged.
#[derive(Debug, PartialEq, Eq)]
pub struct ParseFailure {
    pub kind: FailureKind,
    pub span: Range<usize>,
    pub expected: Expectation,
}

impl Clone for ParseFailure {
    fn clone(&self) -> (cloned: Self)
        ensures
            cloned == *self,
    {
        ParseFailure {
            kind: self.kind,
            span: Range { start: self.span.start, end: self.span.end },
            expected: self.expected,
        }
    }
}

/// `failure` as a rule hands it up that names its failed part `expected`: a
/// recoverable failure takes the new name, a fatal one stays as it is.
pub open spec fn relabeled(failure: ParseFailure, expected: Expectation) -> ParseFailure {
    if failure.kind == FailureKind::Fatal {
        failure
    } else {
        ParseFailure { kind: failure.kind, span: failure.span, expected }
    }
}

impl ParseFailure {
    /// Whether no alternative may be tried after this failure.
    pub fn is_fatal(&self) -> (fatal: bool)
        ensures
            fatal == (self.kind == FailureKind::Fatal),
    {
        match self.kind {
            FailureKind::Fatal => true,
            FailureKind::Recoverable => false,
        }
    }

    /// The failure with the expectation `expected`, unless it is fatal.
    pub fn relabel(self, expected: Expectation) -> (failure: ParseFailure)
        ensures
            failure == relabeled(self, expected),
    {
        if self.is_fatal() {
            self
        } else {
            ParseFailure { kind: self.kind, span: self.span, expected }
        }
    }

    /// The failure made fatal.
    pub fn cut(self) -> (failure: ParseFailure)
        ensures
            failure == (ParseFailure {
                kind: FailureKind::Fatal,
                span: self.span,
                expected: self.expected,
            }),
    {
        ParseFailure { kind: FailureKind::Fatal, span: self.span, expected: self.expected }
    }
}

} // verus!
