//! Which state slot holds the output of which audio object: each equation
//! whose operands include a call of a name gives that name (the first such
//! call) the next slot of the mapping.

use vstd::prelude::*;
use crate::ast::{Operand, Term, Equation, SOperand, STerm, SEquation, terms_model, equations_model, lemma_equation_model};

verus! {

/// The name of the first operand of `ts` that is a call, if any.
pub open spec fn first_call(ts: Seq<STerm>) -> Option<Seq<char>>
    decreases ts.len(),
{
    if ts.len() == 0 {
        None
    } else {
        match ts[0] {
            STerm::Operand(SOperand::Call(n, _)) => Some(n),
            _ => first_call(ts.drop_first()),
        }
    }
}

/// The mapping of a list of equations: in order, the first called name of
/// each equation that calls one.
pub open spec fn object_mapping(eqs: Seq<SEquation>) -> Seq<Seq<char>>
    decreases eqs.len(),
{
    if eqs.len() == 0 {
        Seq::empty()
    } else {
        let m = object_mapping(eqs.drop_last());
        match first_call(eqs.last().terms) {
            Some(n) => m.push(n),
            None => m,
        }
    }
}

/// Whether `i` is the first place of `n` in `m`.
pub open spec fn is_first_index(m: Seq<Seq<char>>, n: Seq<char>, i: int) -> bool {
    &&& 0 <= i < m.len()
    &&& m[i] == n
    &&& forall|j: int| 0 <= j < i ==> m[j] != n
}

/// The first place of `n` in `m` (meaningful where `m` contains `n`).
pub open spec fn first_index(m: Seq<Seq<char>>, n: Seq<char>) -> int {
    choose|i: int| is_first_index(m, n, i)
}

/// The first place of a name is unique, and is what `first_index` gives.
pub proof fn lemma_first_index(m: Seq<Seq<char>>, n: Seq<char>, i: int)
    requires
        is_first_index(m, n, i),
    ensures
        first_index(m, n) == i,
        m.contains(n),
{
    let k = first_index(m, n);
    assert(is_first_index(m, n, k));
    if k < i {
        assert(m[k] != n);
    }
    if i < k {
        assert(m[i] != n);
    }
    assert(m[i] == n);
}

/// The values of a list of names.
pub open spec fn names_model(v: Seq<String>) -> Seq<Seq<char>> {
    Seq::new(v.len(), |i: int| v[i]@)
}

/// The name of the first call among `ts`.
fn read_first_call(ts: &Vec<Term>) -> (r: Option<String>)
    ensures
        match r {
            Some(n) => first_call(terms_model(ts@)) == Some(n@),
            None => first_call(terms_model(ts@)) is None,
        },
{
    let ghost all = terms_model(ts@);
    assert(all.subrange(0, all.len() as int) =~= all);
    let mut i: usize = 0;
    while i < ts.len()
        invariant
            i <= ts.len(),
            all == terms_model(ts@),
            first_call(all) == first_call(all.subrange(i as int, all.len() as int)),
        decreases ts.len() - i,
    {
        assert(all.subrange(i as int, all.len() as int)[0] == ts@[i as int].model());
        match &ts[i] {
            Term::Operand(Operand::Call(n, _)) => {
                return Some(n.clone());
            },
            _ => {},
        }
        assert(all.subrange(i as int, all.len() as int).drop_first() =~= all.subrange(
            i + 1,
            all.len() as int,
        ));
        i = i + 1;
    }
    assert(all.subrange(i as int, all.len() as int).len() == 0);
    None
}

/// The mapping of `exprs`: for each equation in order, the name of its first
/// call, if it has one.
pub fn build_mapping(exprs: &Vec<Equation>) -> (m: Vec<String>)
    ensures
        names_model(m@) == object_mapping(equations_model(exprs@)),
{
    let ghost eqs = equations_model(exprs@);
    let mut m: Vec<String> = Vec::new();
    let mut i: usize = 0;
    while i < exprs.len()
        invariant
            i <= exprs.len(),
            eqs == equations_model(exprs@),
            names_model(m@) == object_mapping(eqs.take(i as int)),
        decreases exprs.len() - i,
    {
        proof {
            lemma_equation_model(exprs@[i as int]);
            assert(eqs.take(i + 1).drop_last() =~= eqs.take(i as int));
        }
        match read_first_call(&exprs[i].terms) {
            Some(n) => {
                let ghost nv = n@;
                m.push(n);
                assert(names_model(m@) =~= object_mapping(eqs.take(i as int)).push(nv));
            },
            None => {},
        }
        i = i + 1;
    }
    assert(eqs.take(i as int) =~= eqs);
    m
}

/// The first place of `n` in `m`, if `m` holds it.
pub fn find_name(m: &Vec<String>, n: &String) -> (r: Option<usize>)
    ensures
        match r {
            Some(i) => is_first_index(names_model(m@), n@, i as int),
            None => !names_model(m@).contains(n@),
        },
{
    let ghost mm = names_model(m@);
    let mut i: usize = 0;
    while i < m.len()
        invariant
            i <= m.len(),
            mm == names_model(m@),
            forall|j: int| 0 <= j < i ==> mm[j] != n@,
        decreases m.len() - i,
    {
        if m[i] == *n {
            return Some(i);
        }
        i = i + 1;
    }
    None
}

} // verus!
