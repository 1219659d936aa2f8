//! The syntax of a signal chain: its audio objects and its equations.

use vstd::prelude::*;
use crate::tokens::{TokenTree, Tree, trees};

verus! {

/// An operand of an equation: an integer literal, a float literal (each by
/// its text), a name, a call of a name with argument equations, or nothing
/// (where the input holds no operand before an operator or the end).
#[derive(Debug)]
pub enum Operand {
    Int(String),
    Float(String),
    Name(String),
    Call(String, Vec<Equation>),
    Empty,
}

/// An item of an equation: an operand, or a binary operator (by its
/// characters).
#[derive(Debug)]
pub enum Term {
    Operand(Operand),
    Op(Vec<char>),
}

/// An equation: operands and operators, alternating, starting with an
/// operand.
#[derive(Debug)]
pub struct Equation {
    pub terms: Vec<Term>,
}

/// A declared audio object: its name, and the call that builds it, split
/// into the called expression and the argument tokens.
#[derive(Debug)]
pub struct AudioDeclaration {
    pub ident: String,
    pub func: Vec<TokenTree>,
    pub args: Vec<TokenTree>,
}

/// A whole `signal_chain!` input: the name of the chain, its audio objects
/// and its equations.
#[derive(Debug)]
pub struct SignalChain {
    pub name: String,
    pub audio_objects: Vec<AudioDeclaration>,
    pub exprs: Vec<Equation>,
}

/// The mathematical value of an operand.
pub enum SOperand {
    Int(Seq<char>),
    Float(Seq<char>),
    Name(Seq<char>),
    Call(Seq<char>, Seq<SEquation>),
    Empty,
}

/// The mathematical value of a term.
pub enum STerm {
    Operand(SOperand),
    Op(Seq<char>),
}

/// The mathematical value of an equation.
pub struct SEquation {
    pub terms: Seq<STerm>,
}

/// The mathematical value of an audio declaration.
pub struct SDecl {
    pub ident: Seq<char>,
    pub func: Seq<Tree>,
    pub args: Seq<Tree>,
}

/// The mathematical value of a signal chain.
pub struct SChain {
    pub name: Seq<char>,
    pub decls: Seq<SDecl>,
    pub exprs: Seq<SEquation>,
}

impl Operand {
    pub open spec fn model(&self) -> SOperand
        decreases self,
    {
        match self {
            Operand::Int(s) => SOperand::Int(s@),
            Operand::Float(s) => SOperand::Float(s@),
            Operand::Name(s) => SOperand::Name(s@),
            Operand::Call(n, args) => SOperand::Call(
                n@,
                Seq::new(
                    args@.len(),
                    |i: int|
                        {
                            if 0 <= i < args@.len() {
                                proof {
                                    assert(decreases_to!(args => args@));
                                }
                                args@[i].model()
                            } else {
                                SEquation { terms: Seq::empty() }
                            }
                        },
                ),
            ),
            Operand::Empty => SOperand::Empty,
        }
    }
}

impl Term {
    pub open spec fn model(&self) -> STerm
        decreases self,
    {
        match self {
            Term::Operand(o) => STerm::Operand(o.model()),
            Term::Op(c) => STerm::Op(c@),
        }
    }
}

impl Equation {
    pub open spec fn model(&self) -> SEquation
        decreases self,
    {
        SEquation {
            terms: Seq::new(
                self.terms@.len(),
                |i: int|
                    {
                        if 0 <= i < self.terms@.len() {
                            proof {
                                assert(decreases_to!(self.terms => self.terms@));
                            }
                            self.terms@[i].model()
                        } else {
                            STerm::Op(Seq::empty())
                        }
                    },
            ),
        }
    }
}

impl AudioDeclaration {
    pub open spec fn model(&self) -> SDecl {
        SDecl { ident: self.ident@, func: trees(self.func@), args: trees(self.args@) }
    }
}

/// The values of a sequence of terms.
pub open spec fn terms_model(v: Seq<Term>) -> Seq<STerm> {
    Seq::new(v.len(), |i: int| v[i].model())
}

/// The values of a sequence of equations.
pub open spec fn equations_model(v: Seq<Equation>) -> Seq<SEquation> {
    Seq::new(v.len(), |i: int| v[i].model())
}

/// The values of a sequence of audio declarations.
pub open spec fn decls_model(v: Seq<AudioDeclaration>) -> Seq<SDecl> {
    Seq::new(v.len(), |i: int| v[i].model())
}

impl SignalChain {
    pub open spec fn model(&self) -> SChain {
        SChain {
            name: self.name@,
            decls: decls_model(self.audio_objects@),
            exprs: equations_model(self.exprs@),
        }
    }
}

/// The value of an equation is the values of its terms.
pub proof fn lemma_equation_model(e: Equation)
    ensures
        e.model().terms == terms_model(e.terms@),
{
    assert(e.model().terms =~= terms_model(e.terms@));
}

/// The value of a call is its name and the values of its arguments.
pub proof fn lemma_call_model(o: Operand)
    requires
        o is Call,
    ensures
        o.model() == SOperand::Call(o->Call_0@, equations_model(o->Call_1@)),
{
    assert(o.model()->Call_1 =~= equations_model(o->Call_1@));
}

} // verus!
