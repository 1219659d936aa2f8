//! `signal_chain!`: from the macro's input tokens to the code it writes.

use vstd::prelude::*;
use crate::tokens::{TokenTree, Tree, trees};
use crate::grammar::{ParseError, parse_chain};
use crate::parser::parse_signal_chain;
use crate::emit::{Emit, SEmit, emits_model, generable, chain_code};
use crate::generate::{can_generate, generate};

verus! {

/// What `signal_chain!` makes of an input.
#[derive(Debug)]
pub enum Expansion {
    /// The code written for the chain.
    Code(Vec<Emit>),
    /// The input is not a signal chain.
    Rejected(ParseError),
    /// The input is a signal chain, but one for which no code can be written:
    /// it has no equation, or an operand is missing (as in `-3` or `a + ;`).
    Unwritable,
}

/// The mathematical value of an expansion.
pub enum SExpansion {
    Code(Seq<SEmit>),
    Rejected(ParseError),
    Unwritable,
}

impl Expansion {
    pub open spec fn model(&self) -> SExpansion {
        match self {
            Expansion::Code(v) => SExpansion::Code(emits_model(v@)),
            Expansion::Rejected(e) => SExpansion::Rejected(*e),
            Expansion::Unwritable => SExpansion::Unwritable,
        }
    }
}

/// What the macro makes of the input tokens `s`.
pub open spec fn expansion(s: Seq<Tree>) -> SExpansion {
    match parse_chain(s) {
        Err(e) => SExpansion::Rejected(e),
        Ok(c) => if generable(c) {
            SExpansion::Code(chain_code(c))
        } else {
            SExpansion::Unwritable
        },
    }
}

/// The `signal_chain!` macro: parses the input (the chain's name, its audio
/// objects in parentheses, its equations in braces) and writes the chain's
/// struct and methods.
pub fn signal_chain(input: &Vec<TokenTree>) -> (r: Expansion)
    ensures
        r.model() == expansion(trees(input@)),
{
    match parse_signal_chain(input) {
        Err(e) => Expansion::Rejected(e),
        Ok(c) => {
            if can_generate(&c) {
                Expansion::Code(generate(&c))
            } else {
                Expansion::Unwritable
            }
        },
    }
}

} // verus!
