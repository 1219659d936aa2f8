//! The grammar of a `signal_chain!` input, read the way syn reads it: each
//! function says what the parse gives from a position of a token sequence.

use vstd::prelude::*;
use crate::tokens::{Tree, Delimiter, is_punct, render_seq};
use crate::syntax::{LitClass, literal_class, ident_accepted, bin_op_accepted, call_accepted};
use crate::ast::{SOperand, STerm, SEquation, SDecl, SChain};

verus! {

/// Why an input is not a signal chain.
#[derive(Clone, Copy, PartialEq, Eq, Structural, Debug)]
pub enum ParseError {
    /// The input does not follow the grammar.
    Syntax,
    /// An operand starts with a parenthesised group: the grammar reads the
    /// same equation again at the same place, without end.
    Unending,
}

/// The literal at `pos`, by its text and the number of tokens it takes: a
/// literal token, or a `-` followed by a literal token (read as one negative
/// literal).
pub open spec fn literal_at(s: Seq<Tree>, pos: int) -> Option<(Seq<char>, int)> {
    if 0 <= pos < s.len() && s[pos] is Literal {
        Some((s[pos]->Literal_0, 1))
    } else if 0 <= pos && pos + 1 < s.len() && is_punct(s[pos], '-') && s[pos + 1] is Literal {
        Some((seq!['-'] + s[pos + 1]->Literal_0, 2))
    } else {
        None
    }
}

/// The text of the literal at `pos` (empty where there is none).
pub open spec fn literal_text(s: Seq<Tree>, pos: int) -> Seq<char> {
    match literal_at(s, pos) {
        Some((text, _)) => text,
        None => Seq::empty(),
    }
}

/// The number of tokens of the literal at `pos` (0 where there is none).
pub open spec fn literal_len(s: Seq<Tree>, pos: int) -> int {
    match literal_at(s, pos) {
        Some((_, n)) => n,
        None => 0,
    }
}

/// The kind of the literal at `pos` (`Other` where there is none).
pub open spec fn literal_class_at(s: Seq<Tree>, pos: int) -> LitClass {
    match literal_at(s, pos) {
        Some((text, _)) => literal_class(text),
        None => LitClass::Other,
    }
}

/// Whether the token at `pos` is an identifier that is not a keyword.
pub open spec fn ident_at(s: Seq<Tree>, pos: int) -> bool {
    0 <= pos < s.len() && (s[pos] matches Tree::Ident(t) && ident_accepted(t))
}

/// Whether the token at `pos` is a parenthesised group.
pub open spec fn paren_at(s: Seq<Tree>, pos: int) -> bool {
    0 <= pos < s.len() && (s[pos] matches Tree::Group(Delimiter::Paren, _))
}

/// Whether an equation ends at `pos`: at the end, or at a `;` or a `,`.
pub open spec fn at_stop(s: Seq<Tree>, pos: int) -> bool {
    pos >= s.len() || (0 <= pos && (is_punct(s[pos], ';') || is_punct(s[pos], ',')))
}

/// The number of tokens that the operand at `pos` takes.
pub open spec fn operand_width(s: Seq<Tree>, pos: int) -> int {
    let k = literal_class_at(s, pos);
    if k == LitClass::Int || k == LitClass::Float {
        literal_len(s, pos)
    } else if ident_at(s, pos) {
        if paren_at(s, pos + 1) {
            2
        } else {
            1
        }
    } else {
        0
    }
}

/// Whether the `n` tokens from `pos` are punctuation characters, each but the
/// last joined to the next.
pub open spec fn joint_run(s: Seq<Tree>, pos: int, n: int) -> bool
    decreases n,
{
    if n <= 0 {
        true
    } else {
        &&& 0 <= pos < s.len()
        &&& s[pos] is Punct
        &&& n > 1 ==> s[pos]->Punct_1
        &&& joint_run(s, pos + 1, n - 1)
    }
}

/// The characters of the `n` punctuation tokens from `pos`.
pub open spec fn run_chars(s: Seq<Tree>, pos: int, n: int) -> Seq<char>
    decreases n,
{
    if n <= 0 {
        Seq::empty()
    } else {
        seq![s[pos]->Punct_0] + run_chars(s, pos + 1, n - 1)
    }
}

/// Whether the `n` tokens from `pos` form a binary operator.
pub open spec fn op_of_width(s: Seq<Tree>, pos: int, n: int) -> bool {
    joint_run(s, pos, n) && bin_op_accepted(run_chars(s, pos, n))
}

/// The number of tokens of the binary operator at `pos`: the longest run of
/// up to three joined punctuation characters that is an operator (0 where
/// there is none).
pub open spec fn op_width(s: Seq<Tree>, pos: int) -> int {
    if op_of_width(s, pos, 3) {
        3
    } else if op_of_width(s, pos, 2) {
        2
    } else if op_of_width(s, pos, 1) {
        1
    } else {
        0
    }
}

pub proof fn lemma_joint_run_in_bounds(s: Seq<Tree>, pos: int, n: int)
    requires
        n > 0,
        joint_run(s, pos, n),
    ensures
        0 <= pos,
        pos + n <= s.len(),
    decreases n,
{
    if n > 1 {
        lemma_joint_run_in_bounds(s, pos + 1, n - 1);
    }
}

/// An operator lies within the sequence.
pub proof fn lemma_op_width(s: Seq<Tree>, pos: int)
    ensures
        0 <= op_width(s, pos) <= 3,
        op_width(s, pos) > 0 ==> 0 <= pos && pos + op_width(s, pos) <= s.len(),
{
    let n = op_width(s, pos);
    if n > 0 {
        lemma_joint_run_in_bounds(s, pos, n);
    }
}

/// An operand lies within the sequence.
pub proof fn lemma_operand_width(s: Seq<Tree>, pos: int)
    ensures
        0 <= operand_width(s, pos),
        operand_width(s, pos) > 0 ==> 0 <= pos && pos + operand_width(s, pos) <= s.len(),
{
}

/// Where the equation that starts at `pos` ends.
pub open spec fn terms_end(s: Seq<Tree>, pos: int) -> int
    decreases s.len() - pos,
{
    let p1 = pos + operand_width(s, pos);
    if at_stop(s, p1) {
        p1
    } else {
        let n = op_width(s, p1);
        if n == 0 {
            p1
        } else {
            let p2 = p1 + n;
            if at_stop(s, p2) {
                p2
            } else {
                proof {
                    lemma_operand_width(s, pos);
                    lemma_op_width(s, p1);
                }
                terms_end(s, p2)
            }
        }
    }
}

pub proof fn lemma_terms_end(s: Seq<Tree>, pos: int)
    ensures
        pos <= terms_end(s, pos),
    decreases s.len() - pos,
{
    let p1 = pos + operand_width(s, pos);
    lemma_operand_width(s, pos);
    if !at_stop(s, p1) {
        let n = op_width(s, p1);
        lemma_op_width(s, p1);
        if n != 0 && !at_stop(s, p1 + n) {
            lemma_terms_end(s, p1 + n);
        }
    }
}

/// The operand at `pos`.
pub open spec fn parse_operand(s: Seq<Tree>, pos: int) -> Result<SOperand, ParseError>
    decreases s, s.len() - pos, 1int,
{
    let k = literal_class_at(s, pos);
    if k == LitClass::Int {
        Ok(SOperand::Int(literal_text(s, pos)))
    } else if k == LitClass::Float {
        Ok(SOperand::Float(literal_text(s, pos)))
    } else if ident_at(s, pos) {
        if paren_at(s, pos + 1) {
            proof {
                assert(decreases_to!(s => s[pos + 1]));
                assert(decreases_to!(s[pos + 1] => s[pos + 1]->Group_1));
            }
            match parse_list(s[pos + 1]->Group_1, 0, ',') {
                Ok(args) => Ok(SOperand::Call(s[pos]->Ident_0, args)),
                Err(e) => Err(e),
            }
        } else {
            Ok(SOperand::Name(s[pos]->Ident_0))
        }
    } else if paren_at(s, pos) {
        Err(ParseError::Unending)
    } else {
        Ok(SOperand::Empty)
    }
}

/// The terms of the equation that starts at `pos`.
pub open spec fn parse_terms(s: Seq<Tree>, pos: int) -> Result<Seq<STerm>, ParseError>
    decreases s, s.len() - pos, 2int,
{
    match parse_operand(s, pos) {
        Err(e) => Err(e),
        Ok(o) => {
            let p1 = pos + operand_width(s, pos);
            if at_stop(s, p1) {
                Ok(seq![STerm::Operand(o)])
            } else {
                let n = op_width(s, p1);
                if n == 0 {
                    Err(ParseError::Syntax)
                } else {
                    let head = seq![STerm::Operand(o), STerm::Op(run_chars(s, p1, n))];
                    let p2 = p1 + n;
                    if at_stop(s, p2) {
                        Ok(head)
                    } else {
                        proof {
                            lemma_operand_width(s, pos);
                            lemma_op_width(s, p1);
                        }
                        match parse_terms(s, p2) {
                            Err(e) => Err(e),
                            Ok(rest) => Ok(head + rest),
                        }
                    }
                }
            }
        },
    }
}

/// The equations from `pos` to the end, separated by `sep`, with an optional
/// `sep` at the end.
pub open spec fn parse_list(s: Seq<Tree>, pos: int, sep: char) -> Result<Seq<SEquation>, ParseError>
    decreases s, s.len() - pos, 3int,
{
    if pos >= s.len() {
        Ok(Seq::empty())
    } else {
        match parse_terms(s, pos) {
            Err(e) => Err(e),
            Ok(ts) => {
                let p1 = terms_end(s, pos);
                if p1 >= s.len() {
                    Ok(seq![SEquation { terms: ts }])
                } else if is_punct(s[p1], sep) {
                    proof {
                        lemma_terms_end(s, pos);
                    }
                    match parse_list(s, p1 + 1, sep) {
                        Err(e) => Err(e),
                        Ok(rest) => Ok(seq![SEquation { terms: ts }] + rest),
                    }
                } else {
                    Err(ParseError::Syntax)
                }
            },
        }
    }
}

/// Whether the tokens from `start` to `e` are one call expression: they end
/// with a parenthesised group and syn reads their text as a call.
pub open spec fn call_ok(s: Seq<Tree>, start: int, e: int) -> bool {
    &&& 0 <= start < e <= s.len()
    &&& s[e - 1] matches Tree::Group(Delimiter::Paren, _)
    &&& call_accepted(render_seq(s.subrange(start, e)))
}

/// Whether an audio declaration may end at `e`: at the end, or before a `,`.
pub open spec fn decl_boundary(s: Seq<Tree>, e: int) -> bool {
    e == s.len() || (0 <= e < s.len() && is_punct(s[e], ','))
}

/// The first place from `e` on where the call expression that starts at
/// `start` can end.
pub open spec fn call_end_from(s: Seq<Tree>, start: int, e: int) -> Option<int>
    decreases s.len() + 1 - e,
{
    if e > s.len() {
        None
    } else if decl_boundary(s, e) && call_ok(s, start, e) {
        Some(e)
    } else {
        call_end_from(s, start, e + 1)
    }
}

pub proof fn lemma_call_end(s: Seq<Tree>, start: int, e: int)
    ensures
        call_end_from(s, start, e) matches Some(r) ==> e <= r && call_ok(s, start, r) && decl_boundary(
            s,
            r,
        ),
    decreases s.len() + 1 - e,
{
    if e <= s.len() && !(decl_boundary(s, e) && call_ok(s, start, e)) {
        lemma_call_end(s, start, e + 1);
    }
}

/// The audio declaration at `pos` (`name : call`) and where it ends.
pub open spec fn parse_decl(s: Seq<Tree>, pos: int) -> Option<(SDecl, int)> {
    if ident_at(s, pos) && pos + 1 < s.len() && is_punct(s[pos + 1], ':') {
        match call_end_from(s, pos + 2, pos + 2) {
            Some(e) => Some(
                (
                    SDecl {
                        ident: s[pos]->Ident_0,
                        func: s.subrange(pos + 2, e - 1),
                        args: s[e - 1]->Group_1,
                    },
                    e,
                ),
            ),
            None => None,
        }
    } else {
        None
    }
}

/// The audio declarations from `pos` to the end, separated by `,`, with an
/// optional `,` at the end.
pub open spec fn parse_decls(s: Seq<Tree>, pos: int) -> Option<Seq<SDecl>>
    decreases s.len() - pos,
{
    if pos >= s.len() {
        Some(Seq::empty())
    } else {
        match parse_decl(s, pos) {
            None => None,
            Some((d, e)) => {
                if e >= s.len() {
                    Some(seq![d])
                } else if is_punct(s[e], ',') {
                    proof {
                        lemma_call_end(s, pos + 2, pos + 2);
                    }
                    match parse_decls(s, e + 1) {
                        None => None,
                        Some(rest) => Some(seq![d] + rest),
                    }
                } else {
                    None
                }
            },
        }
    }
}

/// A whole input: `name ( declarations ) { equations }` and nothing more.
pub open spec fn parse_chain(s: Seq<Tree>) -> Result<SChain, ParseError> {
    if !ident_at(s, 0) || !paren_at(s, 1) {
        Err(ParseError::Syntax)
    } else {
        match parse_decls(s[1]->Group_1, 0) {
            None => Err(ParseError::Syntax),
            Some(decls) => {
                if !(s.len() > 2 && s[2] matches Tree::Group(Delimiter::Brace, _)) {
                    Err(ParseError::Syntax)
                } else {
                    match parse_list(s[2]->Group_1, 0, ';') {
                        Err(e) => Err(e),
                        Ok(exprs) => if s.len() > 3 {
                            Err(ParseError::Syntax)
                        } else {
                            Ok(SChain { name: s[0]->Ident_0, decls, exprs })
                        },
                    }
                }
            },
        }
    }
}

} // verus!
