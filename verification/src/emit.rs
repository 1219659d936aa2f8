//! The code that `signal_chain!` writes, as a specification: token by token,
//! the struct, its constructor and its `next` method.

use vstd::prelude::*;
use crate::tokens::{TokenTree, Tree, Delimiter};
use crate::ast::{SOperand, STerm, SEquation, SDecl, SChain};
use crate::mapping::{object_mapping, first_index};

verus! {

/// A token of the written code: a token tree, a `usize` literal, the `f32`
/// literal of the value of an integer literal (given by its text; the float
/// conversion is left to the caller), or a group of such tokens.
#[derive(Debug)]
pub enum Emit {
    Token(TokenTree),
    UsizeLit(usize),
    F32OfInt(String),
    Group(Delimiter, Vec<Emit>),
}

/// The mathematical value of an emitted token.
pub enum SEmit {
    Token(Tree),
    Usize(nat),
    F32OfInt(Seq<char>),
    Group(Delimiter, Seq<SEmit>),
}

impl Emit {
    pub open spec fn model(&self) -> SEmit
        decreases self,
    {
        match self {
            Emit::Token(t) => SEmit::Token(t.tree()),
            Emit::UsizeLit(n) => SEmit::Usize(*n as nat),
            Emit::F32OfInt(s) => SEmit::F32OfInt(s@),
            Emit::Group(d, v) => SEmit::Group(
                *d,
                Seq::new(
                    v@.len(),
                    |i: int|
                        {
                            if 0 <= i < v@.len() {
                                proof {
                                    assert(decreases_to!(v => v@));
                                }
                                v@[i].model()
                            } else {
                                SEmit::Usize(0)
                            }
                        },
                ),
            ),
        }
    }
}

/// The values of a sequence of emitted tokens.
pub open spec fn emits_model(v: Seq<Emit>) -> Seq<SEmit> {
    Seq::new(v.len(), |i: int| v[i].model())
}

/// The value of an emitted group is its delimiter and the values of its content.
pub proof fn lemma_emit_group(e: Emit)
    requires
        e is Group,
    ensures
        e.model() == SEmit::Group(e->Group_0, emits_model(e->Group_1@)),
{
    assert(e.model()->Group_1 =~= emits_model(e->Group_1@));
}

/// An identifier.
pub open spec fn word(s: Seq<char>) -> SEmit {
    SEmit::Token(Tree::Ident(s))
}

/// A punctuation character standing alone.
pub open spec fn punct(c: char) -> SEmit {
    SEmit::Token(Tree::Punct(c, false))
}

/// A punctuation character joined to the next one.
pub open spec fn joint(c: char) -> SEmit {
    SEmit::Token(Tree::Punct(c, true))
}

/// The input tokens `s`, written as they are.
pub open spec fn verbatim(s: Seq<Tree>) -> Seq<SEmit> {
    Seq::new(s.len(), |i: int| SEmit::Token(s[i]))
}

/// `self.output_states[i]`: the state slot `i`.
pub open spec fn state_slot(i: nat) -> Seq<SEmit> {
    seq![
        word("self"@),
        punct('.'),
        word("output_states"@),
        SEmit::Group(Delimiter::Bracket, seq![SEmit::Usize(i)]),
    ]
}

/// A binary operator: its characters, each but the last joined to the next.
pub open spec fn emit_op(chars: Seq<char>) -> Seq<SEmit>
    decreases chars.len(),
{
    if chars.len() == 0 {
        Seq::empty()
    } else if chars.len() == 1 {
        seq![punct(chars[0])]
    } else {
        seq![joint(chars[0])] + emit_op(chars.drop_first())
    }
}

/// An operand, with the names of `m` read from their state slots: an integer
/// becomes an `f32` literal, a float stays, a mapped name reads its slot, a
/// call of a mapped name calls that object's `next`, any other name or call
/// stays as written.
pub open spec fn emit_operand(o: SOperand, m: Seq<Seq<char>>) -> Seq<SEmit>
    decreases o,
{
    match o {
        SOperand::Int(r) => seq![SEmit::F32OfInt(r)],
        SOperand::Float(r) => seq![SEmit::Token(Tree::Literal(r))],
        SOperand::Name(n) => if m.contains(n) {
            state_slot(first_index(m, n) as nat)
        } else {
            seq![word(n)]
        },
        SOperand::Call(n, args) => {
            let inner = emit_args(args, m);
            if m.contains(n) {
                seq![
                    word("self"@),
                    punct('.'),
                    word(n),
                    punct('.'),
                    word("next"@),
                    SEmit::Group(Delimiter::Paren, inner),
                ]
            } else {
                seq![word(n), SEmit::Group(Delimiter::Paren, inner)]
            }
        },
        SOperand::Empty => Seq::empty(),
    }
}

/// The arguments of a call, each followed by a comma.
pub open spec fn emit_args(args: Seq<SEquation>, m: Seq<Seq<char>>) -> Seq<SEmit>
    decreases args,
{
    if args.len() == 0 {
        Seq::empty()
    } else {
        proof {
            assert(decreases_to!(args => args.subrange(0, args.len() - 1)));
        }
        emit_args(args.drop_last(), m) + emit_equation(args.last(), m) + seq![punct(',')]
    }
}

/// An equation: its terms in order.
pub open spec fn emit_equation(e: SEquation, m: Seq<Seq<char>>) -> Seq<SEmit>
    decreases e,
{
    emit_terms(e.terms, m)
}

/// A sequence of terms.
pub open spec fn emit_terms(ts: Seq<STerm>, m: Seq<Seq<char>>) -> Seq<SEmit>
    decreases ts,
{
    if ts.len() == 0 {
        Seq::empty()
    } else {
        proof {
            assert(decreases_to!(ts => ts.subrange(0, ts.len() - 1)));
        }
        emit_terms(ts.drop_last(), m) + emit_term(ts.last(), m)
    }
}

/// A term: an operand or an operator.
pub open spec fn emit_term(t: STerm, m: Seq<Seq<char>>) -> Seq<SEmit>
    decreases t,
{
    match t {
        STerm::Operand(o) => emit_operand(o, m),
        STerm::Op(c) => emit_op(c),
    }
}

/// The statement of equation `i`: `self.output_states[i] = <equation>;`.
pub open spec fn statement(i: nat, e: SEquation, m: Seq<Seq<char>>) -> Seq<SEmit> {
    state_slot(i) + seq![punct('=')] + emit_equation(e, m) + seq![punct(';')]
}

/// The statements of the equations `eqs`, in order.
pub open spec fn statements(eqs: Seq<SEquation>, m: Seq<Seq<char>>) -> Seq<SEmit>
    decreases eqs.len(),
{
    if eqs.len() == 0 {
        Seq::empty()
    } else {
        statements(eqs.drop_last(), m) + statement((eqs.len() - 1) as nat, eqs.last(), m)
    }
}

/// The field of an audio object: `name : Type,`.
pub open spec fn field(d: SDecl) -> Seq<SEmit> {
    seq![word(d.ident), punct(':')] + verbatim(d.func) + seq![punct(',')]
}

/// The fields of the audio objects, in order.
pub open spec fn fields(ds: Seq<SDecl>) -> Seq<SEmit>
    decreases ds.len(),
{
    if ds.len() == 0 {
        Seq::empty()
    } else {
        fields(ds.drop_last()) + field(ds.last())
    }
}

/// The initialiser of an audio object: `name : Type::new(args),`.
pub open spec fn initializer(d: SDecl) -> Seq<SEmit> {
    seq![word(d.ident), punct(':')] + verbatim(d.func) + seq![
        joint(':'),
        punct(':'),
        word("new"@),
        SEmit::Group(Delimiter::Paren, verbatim(d.args)),
        punct(','),
    ]
}

/// The initialisers of the audio objects, in order.
pub open spec fn initializers(ds: Seq<SDecl>) -> Seq<SEmit>
    decreases ds.len(),
{
    if ds.len() == 0 {
        Seq::empty()
    } else {
        initializers(ds.drop_last()) + initializer(ds.last())
    }
}

/// Whether an operand, and every operand of its arguments, is present.
pub open spec fn operand_complete(o: SOperand) -> bool
    decreases o,
{
    match o {
        SOperand::Empty => false,
        SOperand::Call(_, args) => equations_complete(args),
        _ => true,
    }
}

/// Whether every operand of every equation of `eqs` is present.
pub open spec fn equations_complete(eqs: Seq<SEquation>) -> bool
    decreases eqs,
{
    if eqs.len() == 0 {
        true
    } else {
        proof {
            assert(decreases_to!(eqs => eqs.subrange(0, eqs.len() - 1)));
        }
        equations_complete(eqs.drop_last()) && terms_complete(eqs.last().terms)
    }
}

/// Whether every operand of `ts` is present.
pub open spec fn terms_complete(ts: Seq<STerm>) -> bool
    decreases ts,
{
    if ts.len() == 0 {
        true
    } else {
        proof {
            assert(decreases_to!(ts => ts.subrange(0, ts.len() - 1)));
        }
        terms_complete(ts.drop_last()) && match ts.last() {
            STerm::Operand(o) => operand_complete(o),
            STerm::Op(_) => true,
        }
    }
}

/// Whether code can be written for a chain: it has an equation, and no
/// operand is missing.
pub open spec fn generable(c: SChain) -> bool {
    c.exprs.len() > 0 && equations_complete(c.exprs)
}

/// The fields of the chain's struct: one per audio object, then the state
/// slots, one `f32` per equation.
pub open spec fn struct_body(c: SChain) -> Seq<SEmit> {
    fields(c.decls) + seq![
        word("output_states"@),
        punct(':'),
        SEmit::Group(
            Delimiter::Bracket,
            seq![word("f32"@), punct(';'), SEmit::Usize(c.exprs.len())],
        ),
    ]
}

/// `pub fn new() -> Self { Name { <initialisers> output_states: [0.0; n] } }`.
pub open spec fn new_fn(c: SChain) -> Seq<SEmit> {
    seq![
        word("pub"@),
        word("fn"@),
        word("new"@),
        SEmit::Group(Delimiter::Paren, Seq::empty()),
        joint('-'),
        punct('>'),
        word("Self"@),
        SEmit::Group(
            Delimiter::Brace,
            seq![
                word(c.name),
                SEmit::Group(
                    Delimiter::Brace,
                    initializers(c.decls) + seq![
                        word("output_states"@),
                        punct(':'),
                        SEmit::Group(
                            Delimiter::Bracket,
                            seq![
                                SEmit::Token(Tree::Literal("0.0"@)),
                                punct(';'),
                                SEmit::Usize(c.exprs.len()),
                            ],
                        ),
                    ],
                ),
            ],
        ),
    ]
}

/// `pub fn next(&mut self) -> f32 { <statements> self.output_states[n - 1] }`.
pub open spec fn next_fn(c: SChain) -> Seq<SEmit> {
    seq![
        word("pub"@),
        word("fn"@),
        word("next"@),
        SEmit::Group(Delimiter::Paren, seq![punct('&'), word("mut"@), word("self"@)]),
        joint('-'),
        punct('>'),
        word("f32"@),
        SEmit::Group(
            Delimiter::Brace,
            statements(c.exprs, object_mapping(c.exprs)) + state_slot((c.exprs.len() - 1) as nat),
        ),
    ]
}

/// The code written for a chain: its struct and its `impl` block.
pub open spec fn chain_code(c: SChain) -> Seq<SEmit> {
    seq![
        word("struct"@),
        word(c.name),
        SEmit::Group(Delimiter::Brace, struct_body(c)),
        word("impl"@),
        word(c.name),
        SEmit::Group(Delimiter::Brace, new_fn(c) + next_fn(c)),
    ]
}

} // verus!
