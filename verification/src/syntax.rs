//! What syn decides about single pieces of Rust syntax, taken from syn itself.

use vstd::prelude::*;

verus! {

/// The kind of a literal, as syn reads it.
#[derive(Clone, Copy, PartialEq, Eq, Structural, Debug)]
pub enum LitClass {
    Int,
    Float,
    Other,
}

/// The kind that syn gives the literal written as `text` (its `Lit` parse).
pub uninterp spec fn literal_class(text: Seq<char>) -> LitClass;

/// Whether syn reads `text` as one identifier that is not a keyword.
pub uninterp spec fn ident_accepted(text: Seq<char>) -> bool;

/// Whether syn reads `text` as one binary operator.
pub uninterp spec fn bin_op_accepted(text: Seq<char>) -> bool;

/// Whether syn reads `text` as one function-call expression.
pub uninterp spec fn call_accepted(text: Seq<char>) -> bool;

/// Calls `syn::parse_str::<syn::Lit>` on `text` and tells integer and float
/// literals from the rest (a failed parse counts as the rest). The contract
/// only names the outcome: syn's literal grammar is not restated.
#[verifier::external_body]
pub(crate) fn classify_literal(text: &str) -> (k: LitClass)
    ensures
        k == literal_class(text@),
{
    match syn::parse_str::<syn::Lit>(text) {
        Ok(syn::Lit::Int(_)) => LitClass::Int,
        Ok(syn::Lit::Float(_)) => LitClass::Float,
        _ => LitClass::Other,
    }
}

/// Calls `syn::parse_str::<syn::Ident>` on `text`: true when it parses, that
/// is when `text` is an identifier that syn does not reserve as a keyword.
#[verifier::external_body]
pub(crate) fn accepts_ident(text: &str) -> (b: bool)
    ensures
        b == ident_accepted(text@),
{
    syn::parse_str::<syn::Ident>(text).is_ok()
}

/// Calls `syn::parse_str::<syn::BinOp>` on `text`: true when the whole text
/// is one binary operator.
#[verifier::external_body]
pub(crate) fn accepts_bin_op(text: &str) -> (b: bool)
    ensures
        b == bin_op_accepted(text@),
{
    syn::parse_str::<syn::BinOp>(text).is_ok()
}

/// Calls `syn::parse_str::<syn::ExprCall>` on `text`: true when the whole text
/// is one function-call expression.
#[verifier::external_body]
pub(crate) fn accepts_call(text: &str) -> (b: bool)
    ensures
        b == call_accepted(text@),
{
    syn::parse_str::<syn::ExprCall>(text).is_ok()
}

/// Calls `char::to_string`: the one-character string holding `c`.
#[verifier::external_body]
pub(crate) fn char_text(c: char) -> (s: String)
    ensures
        s@ == seq![c],
{
    c.to_string()
}

} // verus!
