//! Source locations and the failures of the two front-end stages.
//!
//! Every token, every syntax-tree node and every failure carries a [`Span`].
//! Failures are terminal: neither stage tries to recover and go on.

use vstd::prelude::*;
use crate::lex::{Token, TokenView};

verus! {

/// A half-open range `[start, end)` of character positions in the source text.
///
/// Positions count characters (Unicode scalar values), not bytes.
#[derive(Debug, Clone, Copy, PartialEq, Eq, Hash, Structural)]
pub struct Span {
    pub start: usize,
    pub end: usize,
}

impl Span {
    /// The span `[start, end)`.
    pub fn new(start: usize, end: usize) -> (span: Span)
        ensures
            span == (Span { start, end }),
    {
        Span { start, end }
    }

    /// The span given to synthetic nodes that come from no source text: `[0, 0)`.
    pub open spec fn spec_dummy() -> Span {
        Span { start: 0, end: 0 }
    }

    /// The span given to synthetic nodes that come from no source text.
    #[verifier::when_used_as_spec(spec_dummy)]
    pub fn dummy() -> (span: Span)
        ensures
            span == Span::spec_dummy(),
    {
        Span { start: 0, end: 0 }
    }

    /// The span that starts where `self` starts and ends where `last` ends.
    pub open spec fn spec_to(self, last: Span) -> Span {
        Span { start: self.start, end: last.end }
    }

    /// The span that starts where `self` starts and ends where `last` ends.
    #[verifier::when_used_as_spec(spec_to)]
    pub fn to(self, last: Span) -> (span: Span)
        ensures
            span == self.spec_to(last),
    {
        Span { start: self.start, end: last.end }
    }

    /// The empty span at the end of `self`.
    pub open spec fn spec_after(self) -> Span {
        Span { start: self.end, end: self.end }
    }

    /// The empty span at the end of `self`.
    #[verifier::when_used_as_spec(spec_after)]
    pub fn after(self) -> (span: Span)
        ensures
            span == self.spec_after(),
    {
        Span { start: self.end, end: self.end }
    }
}

impl Default for Span {
    fn default() -> (span: Span)
        ensures
            span == Span::spec_dummy(),
    {
        Span { start: 0, end: 0 }
    }
}

/// Why the scanner gave up. Each variant carries the span of the offending text.
#[derive(Debug, Clone, Copy, PartialEq, Eq)]
pub enum LexError {
    /// A `"` was opened and the input ended before the closing `"`. The span
    /// runs from the opening quote to the end of the input.
    UnterminatedString(Span),
    /// A character that starts no token.
    UnexpectedCharacter(char, Span),
    /// Digits followed by a decimal point that no digit follows.
    InvalidNumber(Span),
}

impl LexError {
    /// Where the failure is.
    pub open spec fn spec_span(&self) -> Span {
        match self {
            LexError::UnterminatedString(span) => *span,
            LexError::UnexpectedCharacter(_, span) => *span,
            LexError::InvalidNumber(span) => *span,
        }
    }

    /// Where the failure is.
    #[verifier::when_used_as_spec(spec_span)]
    pub fn span(&self) -> (span: Span)
        ensures
            span == self.spec_span(),
    {
        match self {
            LexError::UnterminatedString(span) => *span,
            LexError::UnexpectedCharacter(_, span) => *span,
            LexError::InvalidNumber(span) => *span,
        }
    }
}

/// What the parser needed at the place where it failed.
#[derive(Debug, Clone, Copy, PartialEq, Eq, Structural)]
pub enum Expected {
    /// The first token of an expression.
    Expression,
    /// An identifier.
    Identifier,
    /// The keyword `fn`.
    Fn,
    /// The keyword `if`.
    If,
    /// The keyword `while`.
    While,
    /// The keyword `loop`.
    Loop,
    /// `=`
    Equal,
    /// `;`
    Semi,
    /// `(`
    ParenO,
    /// `)`
    ParenC,
    /// `{`
    BraceO,
    /// `}`
    BraceC,
    /// `]`
    BracketC,
}

/// Why the parser gave up.
#[derive(Debug, PartialEq, Eq)]
pub enum ParseError {
    /// `found` stands where `expected` was needed.
    UnexpectedToken { expected: Expected, found: Token },
    /// The tokens ended where `expected` was needed. The span is the empty
    /// span behind the last token, or the dummy span if there is no token.
    UnexpectedEof { expected: Expected, span: Span },
    /// A `break` that no `loop` or `while` body encloses.
    BreakOutsideLoop(Span),
    /// A `return` that no function body encloses.
    ReturnOutsideFunction(Span),
}

/// The mathematical value of a [`ParseError`].
pub enum ParseErrorView {
    UnexpectedToken { expected: Expected, found: TokenView },
    UnexpectedEof { expected: Expected, span: Span },
    BreakOutsideLoop(Span),
    ReturnOutsideFunction(Span),
}

impl View for ParseError {
    type V = ParseErrorView;

    open spec fn view(&self) -> ParseErrorView {
        match self {
            ParseError::UnexpectedToken { expected, found } => ParseErrorView::UnexpectedToken {
                expected: *expected,
                found: found@,
            },
            ParseError::UnexpectedEof { expected, span } => ParseErrorView::UnexpectedEof {
                expected: *expected,
                span: *span,
            },
            ParseError::BreakOutsideLoop(span) => ParseErrorView::BreakOutsideLoop(*span),
            ParseError::ReturnOutsideFunction(span) => ParseErrorView::ReturnOutsideFunction(*span),
        }
    }
}

impl ParseErrorView {
    /// Where the failure is.
    pub open spec fn span(self) -> Span {
        match self {
            ParseErrorView::UnexpectedToken { found, .. } => found.span,
            ParseErrorView::UnexpectedEof { span, .. } => span,
            ParseErrorView::BreakOutsideLoop(span) => span,
            ParseErrorView::ReturnOutsideFunction(span) => span,
        }
    }
}

impl ParseError {
    /// Where the failure is: the span of the offending token, or the end of
    /// the tokens.
    pub fn span(&self) -> (span: Span)
        ensures
            span == self@.span(),
    {
        match self {
            ParseError::UnexpectedToken { found, .. } => found.span,
            ParseError::UnexpectedEof { span, .. } => *span,
            ParseError::BreakOutsideLoop(span) => *span,
            ParseError::ReturnOutsideFunction(span) => *span,
        }
    }
}

/// Why turning source text into a program failed: in the scanner or in the parser.
#[derive(Debug, PartialEq, Eq)]
pub enum Error {
    Lex(LexError),
    Parse(ParseError),
}

/// The mathematical value of an [`Error`].
pub enum ErrorView {
    Lex(LexError),
    Parse(ParseErrorView),
}

impl View for Error {
    type V = ErrorView;

    open spec fn view(&self) -> ErrorView {
        match self {
            Error::Lex(e) => ErrorView::Lex(*e),
            Error::Parse(e) => ErrorView::Parse(e@),
        }
    }
}

} // verus!
