//! Properties of the code that `signal_chain!` writes, over whole inputs.

use vstd::prelude::*;
use crate::ast::{SOperand, STerm, SEquation, SChain};
use crate::mapping::{first_call, object_mapping, is_first_index, lemma_first_index};
use crate::emit::{
    SEmit, emit_operand, state_slot, statement, statements, chain_code, word, punct,
    operand_complete, equations_complete, terms_complete,
};
use crate::tokens::{Tree, Delimiter};
use crate::syntax::bin_op_accepted;
use crate::grammar::{parse_terms, operand_width, op_width, at_stop, lemma_operand_width, lemma_op_width, joint_run, run_chars};

verus! {

/// Each equation gives the mapping at most one name (its first call, even
/// where it calls more than one audio object), so the mapping has at most one
/// entry per equation, and every entry is the first call of some equation.
pub proof fn law_one_name_per_equation(eqs: Seq<SEquation>)
    ensures
        object_mapping(eqs).len() <= eqs.len(),
        forall|k: int|
            0 <= k < object_mapping(eqs).len() ==> exists|i: int|
                0 <= i < eqs.len() && first_call(eqs[i].terms) == Some(
                    #[trigger] object_mapping(eqs)[k],
                ),
    decreases eqs.len(),
{
    if eqs.len() > 0 {
        let init = eqs.drop_last();
        law_one_name_per_equation(init);
        let m = object_mapping(eqs);
        assert forall|k: int| 0 <= k < m.len() implies exists|i: int|
            0 <= i < eqs.len() && first_call(eqs[i].terms) == Some(#[trigger] m[k]) by {
            if k < object_mapping(init).len() {
                let i = choose|i: int|
                    0 <= i < init.len() && first_call(init[i].terms) == Some(object_mapping(init)[k]);
                assert(eqs[i] == init[i]);
            } else {
                assert(first_call(eqs[eqs.len() - 1].terms) == Some(m[k]));
            }
        }
    }
}

/// Where every equation calls an audio object, the mapping holds, in
/// order, the first called name of each equation.
pub proof fn lemma_full_mapping(eqs: Seq<SEquation>)
    requires
        forall|j: int| 0 <= j < eqs.len() ==> (#[trigger] first_call(eqs[j].terms)) is Some,
    ensures
        object_mapping(eqs).len() == eqs.len(),
        forall|j: int|
            0 <= j < eqs.len() ==> Some(#[trigger] object_mapping(eqs)[j]) == first_call(
                eqs[j].terms,
            ),
    decreases eqs.len(),
{
    if eqs.len() > 0 {
        let init = eqs.drop_last();
        assert forall|j: int| 0 <= j < init.len() implies (#[trigger] first_call(
            init[j].terms,
        )) is Some by {
            assert(init[j] == eqs[j]);
        }
        lemma_full_mapping(init);
        assert(first_call(eqs[eqs.len() - 1].terms) is Some);
        assert forall|j: int| 0 <= j < eqs.len() implies Some(
            #[trigger] object_mapping(eqs)[j],
        ) == first_call(eqs[j].terms) by {
            if j < init.len() {
                assert(init[j] == eqs[j]);
                assert(object_mapping(eqs)[j] == object_mapping(init)[j]);
            }
        }
    }
}

/// Where every equation calls an audio object, naming the object that
/// equation `i` calls first (and no earlier equation calls first) reads state
/// slot `i`, the very slot that the statement of equation `i` writes.
pub proof fn law_name_reads_its_equation_slot(eqs: Seq<SEquation>, i: int)
    requires
        forall|j: int| 0 <= j < eqs.len() ==> (#[trigger] first_call(eqs[j].terms)) is Some,
        0 <= i < eqs.len(),
        forall|j: int|
            0 <= j < i ==> #[trigger] first_call(eqs[j].terms) != first_call(eqs[i].terms),
    ensures
        ({
            let n = first_call(eqs[i].terms)->0;
            let m = object_mapping(eqs);
            &&& emit_operand(SOperand::Name(n), m) == state_slot(i as nat)
            &&& statement(i as nat, eqs[i], m).subrange(0, 4) == state_slot(i as nat)
        }),
{
    let n = first_call(eqs[i].terms)->0;
    let m = object_mapping(eqs);
    lemma_full_mapping(eqs);
    assert(first_call(eqs[i].terms) is Some);
    assert(m[i] == n);
    assert forall|j: int| 0 <= j < i implies m[j] != n by {
        assert(Some(m[j]) == first_call(eqs[j].terms));
    }
    assert(is_first_index(m, n, i));
    lemma_first_index(m, n, i);
    assert(statement(i as nat, eqs[i], m).subrange(0, 4) =~= state_slot(i as nat));
}

/// An equation read by the parser starts with an operand, and operands and
/// operators alternate.
pub proof fn law_terms_alternate(s: Seq<Tree>, pos: int)
    ensures
        parse_terms(s, pos) matches Ok(ts) ==> {
            &&& ts.len() >= 1
            &&& forall|k: int| 0 <= k < ts.len() ==> ((#[trigger] ts[k] is Operand) <==> k % 2 == 0)
        },
    decreases s.len() - pos,
{
    if let Ok(ts) = parse_terms(s, pos) {
        let p1 = pos + operand_width(s, pos);
        lemma_operand_width(s, pos);
        if !at_stop(s, p1) {
            let n = op_width(s, p1);
            lemma_op_width(s, p1);
            let p2 = p1 + n;
            if !at_stop(s, p2) {
                law_terms_alternate(s, p2);
                let rest = parse_terms(s, p2)->Ok_0;
                assert forall|k: int| 0 <= k < ts.len() implies ((#[trigger] ts[k] is Operand) <==> k
                    % 2 == 0) by {
                    if k >= 2 {
                        assert(ts[k] == rest[k - 2]);
                    }
                }
            }
        }
    }
}

/// Whether a term is an operand that calls a name.
pub open spec fn is_call(t: STerm) -> bool {
    t matches STerm::Operand(SOperand::Call(_, _))
}

/// The first call of a term sequence is the earliest of its operands that is
/// a call, wherever it stands (after any number of other operands and
/// operators); there is none exactly when no operand is a call.
pub proof fn law_first_call_is_earliest_call(ts: Seq<STerm>)
    ensures
        forall|k: int|
            0 <= k < ts.len() && #[trigger] is_call(ts[k]) && (forall|j: int|
                0 <= j < k ==> !is_call(ts[j])) ==> first_call(ts) == Some(ts[k]->Operand_0->Call_0),
        first_call(ts) is None <==> (forall|j: int| 0 <= j < ts.len() ==> !#[trigger] is_call(ts[j])),
    decreases ts.len(),
{
    if ts.len() > 0 {
        let rest = ts.drop_first();
        law_first_call_is_earliest_call(rest);
        assert forall|k: int|
            0 <= k < ts.len() && #[trigger] is_call(ts[k]) && (forall|j: int|
                0 <= j < k ==> !is_call(ts[j])) implies first_call(ts) == Some(
            ts[k]->Operand_0->Call_0,
        ) by {
            if k > 0 {
                assert(!is_call(ts[0]));
                assert(rest[k - 1] == ts[k]);
                assert forall|j: int| 0 <= j < k - 1 implies !is_call(rest[j]) by {
                    assert(rest[j] == ts[j + 1]);
                }
                assert(is_call(rest[k - 1]));
            }
        }
        if first_call(ts) is None {
            assert(!is_call(ts[0]));
            assert forall|j: int| 0 <= j < ts.len() implies !#[trigger] is_call(ts[j]) by {
                if j > 0 {
                    assert(rest[j - 1] == ts[j]);
                    assert(!is_call(rest[j - 1]));
                }
            }
        }
        if forall|j: int| 0 <= j < ts.len() ==> !#[trigger] is_call(ts[j]) {
            assert(!is_call(ts[0]));
            assert forall|j: int| 0 <= j < rest.len() implies !#[trigger] is_call(rest[j]) by {
                assert(rest[j] == ts[j + 1]);
            }
        }
    }
}

/// A single punctuation character that syn reads as a binary operator is
/// read as an operator (of one or more characters), whatever token follows.
pub proof fn law_operator_char_is_read(s: Seq<Tree>, pos: int, c: char)
    requires
        0 <= pos < s.len(),
        s[pos] matches Tree::Punct(ch, _) && ch == c,
        bin_op_accepted(seq![c]),
    ensures
        op_width(s, pos) >= 1,
{
    assert(joint_run(s, pos + 1, 0));
    assert(joint_run(s, pos, 1));
    assert(run_chars(s, pos + 1, 0) =~= Seq::<char>::empty());
    assert(s[pos]->Punct_0 == c);
    assert(run_chars(s, pos, 1) == seq![s[pos]->Punct_0] + run_chars(s, pos + 1, 0));
    assert(run_chars(s, pos, 1) =~= seq![c]);
}

/// A sequence of terms is complete exactly when every operand in it is.
pub proof fn law_terms_complete_iff(ts: Seq<STerm>)
    ensures
        terms_complete(ts) <==> (forall|k: int|
            0 <= k < ts.len() && (#[trigger] ts[k]) is Operand ==> operand_complete(ts[k]->Operand_0)),
    decreases ts.len(),
{
    if ts.len() > 0 {
        let init = ts.drop_last();
        law_terms_complete_iff(init);
        if forall|k: int|
            0 <= k < ts.len() && (#[trigger] ts[k]) is Operand ==> operand_complete(ts[k]->Operand_0) {
            assert forall|k: int|
                0 <= k < init.len() && (#[trigger] init[k]) is Operand implies operand_complete(
                init[k]->Operand_0,
            ) by {
                assert(init[k] == ts[k]);
            }
            assert(ts.last() == ts[ts.len() - 1]);
        }
        if terms_complete(ts) {
            assert forall|k: int|
                0 <= k < ts.len() && (#[trigger] ts[k]) is Operand implies operand_complete(
                ts[k]->Operand_0,
            ) by {
                if k < init.len() {
                    assert(init[k] == ts[k]);
                }
            }
        }
    }
}

/// A list of equations is complete exactly when every equation in it is.
pub proof fn law_equations_complete_iff(eqs: Seq<SEquation>)
    ensures
        equations_complete(eqs) <==> (forall|i: int|
            0 <= i < eqs.len() ==> terms_complete(#[trigger] eqs[i].terms)),
    decreases eqs.len(),
{
    if eqs.len() > 0 {
        let init = eqs.drop_last();
        law_equations_complete_iff(init);
        if forall|i: int| 0 <= i < eqs.len() ==> terms_complete(#[trigger] eqs[i].terms) {
            assert forall|i: int| 0 <= i < init.len() implies terms_complete(
                #[trigger] init[i].terms,
            ) by {
                assert(init[i] == eqs[i]);
            }
            assert(terms_complete(eqs[eqs.len() - 1].terms));
        }
        if equations_complete(eqs) {
            assert forall|i: int| 0 <= i < eqs.len() implies terms_complete(
                #[trigger] eqs[i].terms,
            ) by {
                if i < init.len() {
                    assert(init[i] == eqs[i]);
                }
            }
        }
    }
}

/// A call is complete exactly when each of its arguments is; in particular
/// a call with no arguments is complete.
pub proof fn law_call_complete_iff_arguments(n: Seq<char>, args: Seq<SEquation>)
    ensures
        operand_complete(SOperand::Call(n, args)) <==> (forall|i: int|
            0 <= i < args.len() ==> terms_complete(#[trigger] args[i].terms)),
        operand_complete(SOperand::Call(n, Seq::empty())),
{
    law_equations_complete_iff(args);
}

/// The state array of the written struct, and the one that `new` fills with
/// zeros, have exactly one slot per equation (not per audio object).
pub proof fn law_one_state_slot_per_equation(c: SChain)
    ensures
        (chain_code(c)[2] matches SEmit::Group(Delimiter::Brace, body) && body.len() > 0
            && body.last() == SEmit::Group(
            Delimiter::Bracket,
            seq![word("f32"@), punct(';'), SEmit::Usize(c.exprs.len())],
        )),
        (chain_code(c)[5] matches SEmit::Group(Delimiter::Brace, methods) && (methods.len() > 7
            && (methods[7] matches SEmit::Group(Delimiter::Brace, ctor) && (ctor.len() == 2 && (
        ctor[1] matches SEmit::Group(Delimiter::Brace, inits) && (inits.len() > 0 && inits.last()
            == SEmit::Group(
            Delimiter::Bracket,
            seq![SEmit::Token(Tree::Literal("0.0"@)), punct(';'), SEmit::Usize(c.exprs.len())],
        ))))))),
{
}

/// `next` returns the slot of the last equation, the very slot that the
/// last statement writes, however many equations call an audio object.
pub proof fn law_next_returns_last_equation_slot(c: SChain)
    requires
        c.exprs.len() > 0,
    ensures
        ({
            let n = c.exprs.len();
            let m = object_mapping(c.exprs);
            let last = statement((n - 1) as nat, c.exprs[n - 1], m);
            let st = statements(c.exprs, m);
            &&& chain_code(c)[5] matches SEmit::Group(Delimiter::Brace, methods) && (methods.len() > 0
                && (methods.last() matches SEmit::Group(Delimiter::Brace, b) && (b.len() >= 4
                && b.subrange(b.len() - 4, b.len() as int) == state_slot((n - 1) as nat)
                && b.subrange(0, b.len() - 4) == st)))
            &&& st.len() >= last.len()
            &&& st.subrange(st.len() - last.len(), st.len() as int) == last
            &&& last.subrange(0, 4) == state_slot((n - 1) as nat)
        }),
{
    let n = c.exprs.len();
    let m = object_mapping(c.exprs);
    let last = statement((n - 1) as nat, c.exprs[n - 1], m);
    let st = statements(c.exprs, m);
    assert(c.exprs.last() == c.exprs[n - 1]);
    assert(st == statements(c.exprs.drop_last(), m) + last);
    assert(st.subrange(st.len() - last.len(), st.len() as int) =~= last);
    assert(last.subrange(0, 4) =~= state_slot((n - 1) as nat));
    let b = st + state_slot((n - 1) as nat);
    assert(b.subrange(b.len() - 4, b.len() as int) =~= state_slot((n - 1) as nat));
    assert(b.subrange(0, b.len() - 4) =~= st);
}

} // verus!
