//! The front end of a small scripting language: a scanner that turns source
//! text into tokens, and a recursive-descent parser that turns tokens into a
//! syntax tree.
//!
//! The two stages run strictly one after the other: [`lex::lex`] scans the
//! whole text, [`parse::parse`] takes all the tokens. [`parse_source`] does
//! both. What the stages compute is stated in [`lex`] and in [`grammar`];
//! [`laws`] holds what follows from it.

use vstd::prelude::*;
use std::marker::PhantomData;
use crate::ast::{Program, ProgramView};
use crate::errors::{Error, ErrorView};
use crate::grammar::parse_program;
use crate::lex::spec_lex;

pub mod ast;
pub mod errors;
pub mod grammar;
pub mod laws;
pub mod lex;
pub mod parse;
pub mod spans;

verus! {

/// What scanning and then parsing makes of the source text `src`.
pub open spec fn spec_parse_source(src: Seq<char>) -> Result<ProgramView, ErrorView> {
    match spec_lex(src) {
        Err(e) => Err(ErrorView::Lex(e)),
        Ok(tokens) => match parse_program(tokens) {
            Ok(program) => Ok(program),
            Err(e) => Err(ErrorView::Parse(e)),
        },
    }
}

/// Scans and parses `source`: the program it holds, or the first failure of
/// either stage. Nothing is parsed when the scanner fails.
pub fn parse_source(source: &str) -> (res: Result<Program, Error>)
    ensures
        match res {
            Ok(program) => spec_parse_source(source@) == Ok::<ProgramView, ErrorView>(program@),
            Err(e) => spec_parse_source(source@) == Err::<ProgramView, ErrorView>(e@),
        },
{
    match lex::lex(source) {
        Err(e) => Err(Error::Lex(e)),
        Ok(tokens) => match parse::parse(tokens) {
            Ok(program) => Ok(program),
            Err(e) => Err(Error::Parse(e)),
        },
    }
}

/// A marker: a type that has it takes part in [`requires_parent_fulfill_cool_trait`].
pub trait CoolTrait {

}

impl<'a, D: CoolTrait> CoolTrait for &'a D {

}

/// A value that holds one of two types which in turn hold a `Parent`.
pub enum Parent<'a> {
    A(Box<A<'a>>),
    B(Box<B<'a>>),
    /// Holds nothing: the end of every chain.
    Boo(PhantomData<&'a ()>),
}

/// The first of the two types that hold a [`Parent`].
pub struct A<'a> {
    parent: Parent<'a>,
}

/// The second of the two types that hold a [`Parent`].
pub struct B<'a> {
    parent: Parent<'a>,
}

impl<'a> CoolTrait for Parent<'a> {

}

impl<'a> CoolTrait for A<'a> {

}

impl<'a> CoolTrait for B<'a> {

}

/// Hands `parent` to [`requires_parent_fulfill_cool_trait`]: this compiles
/// only while `Parent` has the marker.
pub fn foo(parent: Parent<'_>) {
    requires_parent_fulfill_cool_trait(parent);
}

/// Takes any value whose type has the marker, and does nothing with it.
pub fn requires_parent_fulfill_cool_trait(_value: impl CoolTrait) {
}

} // verus!
