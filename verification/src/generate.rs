//! Writes the code of a signal chain, proved to be the code that `emit`
//! specifies.

use vstd::prelude::*;
use crate::tokens::{TokenTree, Tree, Delimiter, trees, copy_tree};
use crate::ast::{Operand, Term, Equation, AudioDeclaration, SignalChain, STerm, SEquation, terms_model, equations_model, decls_model, lemma_equation_model, lemma_call_model};
use crate::mapping::{names_model, build_mapping, find_name, lemma_first_index, object_mapping};
use crate::emit::{
    Emit, SEmit, emits_model, lemma_emit_group, word, punct, joint, verbatim, state_slot, emit_op,
    emit_operand, emit_args, emit_equation, emit_terms, emit_term, statement, statements, field,
    fields, initializer, initializers, operand_complete, equations_complete, terms_complete,
    generable, struct_body, new_fn, next_fn, chain_code,
};

verus! {

/// The values of two emitted sequences, one after the other.
pub proof fn lemma_emits_concat(a: Seq<Emit>, b: Seq<Emit>)
    ensures
        emits_model(a + b) == emits_model(a) + emits_model(b),
{
    assert(emits_model(a + b) =~= emits_model(a) + emits_model(b));
}

/// Appends `v` to `out`.
fn push_all(out: &mut Vec<Emit>, v: Vec<Emit>)
    ensures
        emits_model(final(out)@) == emits_model(old(out)@) + emits_model(v@),
{
    let mut v = v;
    let ghost a = out@;
    let ghost b = v@;
    out.append(&mut v);
    proof {
        lemma_emits_concat(a, b);
    }
}

/// Appends `e` to `out`.
fn push_one(out: &mut Vec<Emit>, e: Emit)
    ensures
        emits_model(final(out)@) == emits_model(old(out)@) + seq![e.model()],
{
    let ghost m = e.model();
    out.push(e);
    assert(emits_model(out@) =~= emits_model(old(out)@) + seq![m]);
}

/// The identifier `s`.
fn word_of(s: &str) -> (e: Emit)
    ensures
        e.model() == word(s@),
{
    Emit::Token(TokenTree::Ident(String::from_str(s)))
}

/// The identifier held by `s`.
fn word_from(s: &String) -> (e: Emit)
    ensures
        e.model() == word(s@),
{
    Emit::Token(TokenTree::Ident(s.clone()))
}

/// The punctuation character `c`, standing alone.
fn punct_of(c: char) -> (e: Emit)
    ensures
        e.model() == punct(c),
{
    Emit::Token(TokenTree::Punct(c, false))
}

/// The punctuation character `c`, joined to the next one.
fn joint_of(c: char) -> (e: Emit)
    ensures
        e.model() == joint(c),
{
    Emit::Token(TokenTree::Punct(c, true))
}

/// A group of emitted tokens.
fn group_of(d: Delimiter, v: Vec<Emit>) -> (e: Emit)
    ensures
        e.model() == SEmit::Group(d, emits_model(v@)),
{
    let e = Emit::Group(d, v);
    proof {
        lemma_emit_group(e);
    }
    e
}

/// Appends the tokens of `s` as they are.
fn push_verbatim(out: &mut Vec<Emit>, s: &Vec<TokenTree>)
    ensures
        emits_model(final(out)@) == emits_model(old(out)@) + verbatim(trees(s@)),
{
    let ghost start = emits_model(out@);
    let mut i: usize = 0;
    while i < s.len()
        invariant
            i <= s.len(),
            emits_model(out@) == start + verbatim(trees(s@).take(i as int)),
        decreases s.len() - i,
    {
        let t = copy_tree(&s[i]);
        push_one(out, Emit::Token(t));
        i = i + 1;
        assert(verbatim(trees(s@).take(i as int)) =~= verbatim(trees(s@).take(i - 1)) + seq![
            SEmit::Token(s@[i - 1].tree()),
        ]);
    }
    assert(trees(s@).take(i as int) =~= trees(s@));
}

/// Appends `self.output_states[i]`.
fn push_state_slot(out: &mut Vec<Emit>, i: usize)
    ensures
        emits_model(final(out)@) == emits_model(old(out)@) + state_slot(i as nat),
{
    push_one(out, word_of("self"));
    push_one(out, punct_of('.'));
    push_one(out, word_of("output_states"));
    let mut idx: Vec<Emit> = Vec::new();
    push_one(&mut idx, Emit::UsizeLit(i));
    assert(emits_model(idx@) =~= seq![SEmit::Usize(i as nat)]);
    push_one(out, group_of(Delimiter::Bracket, idx));
    assert(emits_model(out@) =~= emits_model(old(out)@) + state_slot(i as nat));
}

/// The tokens of an operator are its characters, all joined but the last.
proof fn lemma_emit_op(chars: Seq<char>)
    ensures
        emit_op(chars).len() == chars.len(),
        forall|k: int|
            0 <= k < chars.len() ==> #[trigger] emit_op(chars)[k] == if k == chars.len() - 1 {
                punct(chars[k])
            } else {
                joint(chars[k])
            },
    decreases chars.len(),
{
    if chars.len() > 1 {
        lemma_emit_op(chars.drop_first());
        assert forall|k: int| 0 <= k < chars.len() implies #[trigger] emit_op(chars)[k] == if k
            == chars.len() - 1 {
            punct(chars[k])
        } else {
            joint(chars[k])
        } by {
            if k > 0 {
                assert(emit_op(chars)[k] == emit_op(chars.drop_first())[k - 1]);
            }
        }
    }
}

/// Appends a binary operator.
fn push_op(out: &mut Vec<Emit>, chars: &Vec<char>)
    ensures
        emits_model(final(out)@) == emits_model(old(out)@) + emit_op(chars@),
{
    let ghost start = emits_model(out@);
    proof {
        lemma_emit_op(chars@);
    }
    let mut i: usize = 0;
    while i < chars.len()
        invariant
            i <= chars.len(),
            emits_model(out@) == start + emit_op(chars@).take(i as int),
            emit_op(chars@).len() == chars@.len(),
            forall|k: int|
                0 <= k < chars@.len() ==> #[trigger] emit_op(chars@)[k] == if k == chars@.len() - 1 {
                    punct(chars@[k])
                } else {
                    joint(chars@[k])
                },
        decreases chars.len() - i,
    {
        if i + 1 == chars.len() {
            push_one(out, punct_of(chars[i]));
        } else {
            push_one(out, joint_of(chars[i]));
        }
        i = i + 1;
        assert(emit_op(chars@).take(i as int) =~= emit_op(chars@).take(i - 1) + seq![
            emit_op(chars@)[i - 1],
        ]);
    }
    assert(emit_op(chars@).take(i as int) =~= emit_op(chars@));
}

/// Appends an operand, with the names of `m` read from their slots.
fn push_operand(out: &mut Vec<Emit>, o: &Operand, m: &Vec<String>)
    ensures
        emits_model(final(out)@) == emits_model(old(out)@) + emit_operand(o.model(), names_model(m@)),
    decreases o,
{
    let ghost mm = names_model(m@);
    match o {
        Operand::Int(r) => {
            push_one(out, Emit::F32OfInt(r.clone()));
        },
        Operand::Float(r) => {
            push_one(out, Emit::Token(TokenTree::Literal(r.clone())));
        },
        Operand::Name(n) => {
            match find_name(m, n) {
                Some(i) => {
                    proof {
                        lemma_first_index(mm, n@, i as int);
                    }
                    push_state_slot(out, i);
                },
                None => {
                    push_one(out, word_from(n));
                },
            }
        },
        Operand::Call(n, args) => {
            proof {
                lemma_call_model(*o);
            }
            let mut inner: Vec<Emit> = Vec::new();
            push_args(&mut inner, args, m);
            assert(emits_model(inner@) =~= emit_args(equations_model(args@), mm));
            match find_name(m, n) {
                Some(i) => {
                    proof {
                        lemma_first_index(mm, n@, i as int);
                    }
                    push_one(out, word_of("self"));
                    push_one(out, punct_of('.'));
                    push_one(out, word_from(n));
                    push_one(out, punct_of('.'));
                    push_one(out, word_of("next"));
                    push_one(out, group_of(Delimiter::Paren, inner));
                },
                None => {
                    push_one(out, word_from(n));
                    push_one(out, group_of(Delimiter::Paren, inner));
                },
            }
            assert(emits_model(out@) =~= emits_model(old(out)@) + emit_operand(o.model(), mm));
        },
        Operand::Empty => {
            assert(emits_model(out@) =~= emits_model(old(out)@) + emit_operand(o.model(), mm));
        },
    }
}

/// Appends the arguments of a call, each followed by a comma.
fn push_args(out: &mut Vec<Emit>, args: &Vec<Equation>, m: &Vec<String>)
    ensures
        emits_model(final(out)@) == emits_model(old(out)@) + emit_args(
            equations_model(args@),
            names_model(m@),
        ),
    decreases args,
{
    let ghost start = emits_model(out@);
    let ghost a = equations_model(args@);
    let ghost mm = names_model(m@);
    let mut i: usize = 0;
    while i < args.len()
        invariant
            i <= args.len(),
            a == equations_model(args@),
            mm == names_model(m@),
            emits_model(out@) == start + emit_args(a.take(i as int), mm),
        decreases args.len() - i,
    {
        proof {
            assert(decreases_to!(args => args@[i as int]));
            assert(a.take(i + 1).drop_last() =~= a.take(i as int));
        }
        push_equation(out, &args[i], m);
        push_one(out, punct_of(','));
        i = i + 1;
    }
    assert(a.take(i as int) =~= a);
}

/// Appends an equation.
fn push_equation(out: &mut Vec<Emit>, e: &Equation, m: &Vec<String>)
    ensures
        emits_model(final(out)@) == emits_model(old(out)@) + emit_equation(e.model(), names_model(m@)),
    decreases e,
{
    proof {
        lemma_equation_model(*e);
    }
    push_terms(out, &e.terms, m);
}

/// Appends a sequence of terms.
fn push_terms(out: &mut Vec<Emit>, ts: &Vec<Term>, m: &Vec<String>)
    ensures
        emits_model(final(out)@) == emits_model(old(out)@) + emit_terms(terms_model(ts@), names_model(m@)),
    decreases ts,
{
    let ghost start = emits_model(out@);
    let ghost a = terms_model(ts@);
    let ghost mm = names_model(m@);
    let mut i: usize = 0;
    while i < ts.len()
        invariant
            i <= ts.len(),
            a == terms_model(ts@),
            mm == names_model(m@),
            emits_model(out@) == start + emit_terms(a.take(i as int), mm),
        decreases ts.len() - i,
    {
        proof {
            assert(decreases_to!(ts => ts@[i as int]));
            assert(a.take(i + 1).drop_last() =~= a.take(i as int));
        }
        push_term(out, &ts[i], m);
        i = i + 1;
    }
    assert(a.take(i as int) =~= a);
}

/// Appends a term.
fn push_term(out: &mut Vec<Emit>, t: &Term, m: &Vec<String>)
    ensures
        emits_model(final(out)@) == emits_model(old(out)@) + emit_term(t.model(), names_model(m@)),
    decreases t,
{
    match t {
        Term::Operand(o) => push_operand(out, o, m),
        Term::Op(c) => push_op(out, c),
    }
}

/// Appends the statements of the equations, in order: equation `i` sets
/// state slot `i`.
fn push_statements(out: &mut Vec<Emit>, exprs: &Vec<Equation>, m: &Vec<String>)
    ensures
        emits_model(final(out)@) == emits_model(old(out)@) + statements(
            equations_model(exprs@),
            names_model(m@),
        ),
{
    let ghost start = emits_model(out@);
    let ghost a = equations_model(exprs@);
    let ghost mm = names_model(m@);
    let mut i: usize = 0;
    while i < exprs.len()
        invariant
            i <= exprs.len(),
            a == equations_model(exprs@),
            mm == names_model(m@),
            emits_model(out@) == start + statements(a.take(i as int), mm),
        decreases exprs.len() - i,
    {
        proof {
            assert(a.take(i + 1).drop_last() =~= a.take(i as int));
        }
        let ghost before = emits_model(out@);
        push_state_slot(out, i);
        push_one(out, punct_of('='));
        push_equation(out, &exprs[i], m);
        push_one(out, punct_of(';'));
        assert(emits_model(out@) =~= before + statement(i as nat, a[i as int], mm));
        i = i + 1;
    }
    assert(a.take(i as int) =~= a);
}

/// Appends the fields of the audio objects.
fn push_fields(out: &mut Vec<Emit>, ds: &Vec<AudioDeclaration>)
    ensures
        emits_model(final(out)@) == emits_model(old(out)@) + fields(decls_model(ds@)),
{
    let ghost start = emits_model(out@);
    let ghost a = decls_model(ds@);
    let mut i: usize = 0;
    while i < ds.len()
        invariant
            i <= ds.len(),
            a == decls_model(ds@),
            emits_model(out@) == start + fields(a.take(i as int)),
        decreases ds.len() - i,
    {
        proof {
            assert(a.take(i + 1).drop_last() =~= a.take(i as int));
        }
        let ghost before = emits_model(out@);
        let d = &ds[i];
        push_one(out, word_from(&d.ident));
        push_one(out, punct_of(':'));
        push_verbatim(out, &d.func);
        push_one(out, punct_of(','));
        assert(emits_model(out@) =~= before + field(a[i as int]));
        i = i + 1;
    }
    assert(a.take(i as int) =~= a);
}

/// Appends the initialisers of the audio objects.
fn push_initializers(out: &mut Vec<Emit>, ds: &Vec<AudioDeclaration>)
    ensures
        emits_model(final(out)@) == emits_model(old(out)@) + initializers(decls_model(ds@)),
{
    let ghost start = emits_model(out@);
    let ghost a = decls_model(ds@);
    let mut i: usize = 0;
    while i < ds.len()
        invariant
            i <= ds.len(),
            a == decls_model(ds@),
            emits_model(out@) == start + initializers(a.take(i as int)),
        decreases ds.len() - i,
    {
        proof {
            assert(a.take(i + 1).drop_last() =~= a.take(i as int));
        }
        let ghost before = emits_model(out@);
        let d = &ds[i];
        push_one(out, word_from(&d.ident));
        push_one(out, punct_of(':'));
        push_verbatim(out, &d.func);
        push_one(out, joint_of(':'));
        push_one(out, punct_of(':'));
        push_one(out, word_of("new"));
        let mut inner: Vec<Emit> = Vec::new();
        push_verbatim(&mut inner, &d.args);
        assert(emits_model(inner@) =~= verbatim(trees(d.args@)));
        push_one(out, group_of(Delimiter::Paren, inner));
        push_one(out, punct_of(','));
        assert(emits_model(out@) =~= before + initializer(a[i as int]));
        i = i + 1;
    }
    assert(a.take(i as int) =~= a);
}

/// Whether an operand and every operand of its arguments is present.
fn operand_is_complete(o: &Operand) -> (b: bool)
    ensures
        b == operand_complete(o.model()),
    decreases o,
{
    match o {
        Operand::Empty => false,
        Operand::Call(_, args) => {
            proof {
                lemma_call_model(*o);
            }
            equations_are_complete(args)
        },
        _ => true,
    }
}

/// Whether every operand of every equation is present.
fn equations_are_complete(eqs: &Vec<Equation>) -> (b: bool)
    ensures
        b == equations_complete(equations_model(eqs@)),
    decreases eqs,
{
    let ghost a = equations_model(eqs@);
    let mut i: usize = 0;
    while i < eqs.len()
        invariant
            i <= eqs.len(),
            a == equations_model(eqs@),
            equations_complete(a.take(i as int)),
        decreases eqs.len() - i,
    {
        proof {
            assert(decreases_to!(eqs => eqs@[i as int]));
            assert(a.take(i + 1).drop_last() =~= a.take(i as int));
            lemma_equation_model(eqs@[i as int]);
        }
        if !terms_are_complete(&eqs[i].terms) {
            proof {
                if equations_complete(a) {
                    lemma_complete_prefix(a, i + 1);
                }
            }
            return false;
        }
        i = i + 1;
    }
    assert(a.take(i as int) =~= a);
    true
}

/// Whether every operand of `ts` is present.
fn terms_are_complete(ts: &Vec<Term>) -> (b: bool)
    ensures
        b == terms_complete(terms_model(ts@)),
    decreases ts,
{
    let ghost a = terms_model(ts@);
    let mut i: usize = 0;
    while i < ts.len()
        invariant
            i <= ts.len(),
            a == terms_model(ts@),
            terms_complete(a.take(i as int)),
        decreases ts.len() - i,
    {
        proof {
            assert(decreases_to!(ts => ts@[i as int]));
            assert(a.take(i + 1).drop_last() =~= a.take(i as int));
        }
        let ok = match &ts[i] {
            Term::Operand(o) => operand_is_complete(o),
            Term::Op(_) => true,
        };
        if !ok {
            proof {
                if terms_complete(a) {
                    lemma_terms_complete_prefix(a, i + 1);
                }
            }
            return false;
        }
        i = i + 1;
    }
    assert(a.take(i as int) =~= a);
    true
}

/// A list is complete only if each of its prefixes is.
proof fn lemma_complete_prefix(a: Seq<SEquation>, k: int)
    requires
        0 <= k <= a.len(),
        equations_complete(a),
    ensures
        equations_complete(a.take(k)),
    decreases a.len(),
{
    if k < a.len() {
        assert(a.drop_last().take(k) =~= a.take(k));
        lemma_complete_prefix(a.drop_last(), k);
    } else {
        assert(a.take(k) =~= a);
    }
}

/// A sequence of terms is complete only if each of its prefixes is.
proof fn lemma_terms_complete_prefix(a: Seq<STerm>, k: int)
    requires
        0 <= k <= a.len(),
        terms_complete(a),
    ensures
        terms_complete(a.take(k)),
    decreases a.len(),
{
    if k < a.len() {
        assert(a.drop_last().take(k) =~= a.take(k));
        lemma_terms_complete_prefix(a.drop_last(), k);
    } else {
        assert(a.take(k) =~= a);
    }
}

/// Whether code can be written for `c`: it has at least one equation, and
/// no operand of any equation is missing.
pub fn can_generate(c: &SignalChain) -> (b: bool)
    ensures
        b == generable(c.model()),
{
    c.exprs.len() > 0 && equations_are_complete(&c.exprs)
}

/// Writes the code of the chain `c`: a struct named after the chain with a
/// field per audio object and one `f32` state slot per equation, a `new`
/// that builds each audio object and zeroes the slots, and a `next` that
/// computes the equations in order, each into its slot, and returns the last
/// slot.
pub fn generate(c: &SignalChain) -> (code: Vec<Emit>)
    requires
        generable(c.model()),
    ensures
        emits_model(code@) == chain_code(c.model()),
{
    let ghost cm = c.model();
    let n = c.exprs.len();
    let m = build_mapping(&c.exprs);

    let mut body: Vec<Emit> = Vec::new();
    push_fields(&mut body, &c.audio_objects);
    push_one(&mut body, word_of("output_states"));
    push_one(&mut body, punct_of(':'));
    let mut ty: Vec<Emit> = Vec::new();
    push_one(&mut ty, word_of("f32"));
    push_one(&mut ty, punct_of(';'));
    push_one(&mut ty, Emit::UsizeLit(n));
    assert(emits_model(ty@) =~= seq![word("f32"@), punct(';'), SEmit::Usize(n as nat)]);
    push_one(&mut body, group_of(Delimiter::Bracket, ty));
    assert(emits_model(body@) =~= struct_body(cm));

    let mut inits: Vec<Emit> = Vec::new();
    push_initializers(&mut inits, &c.audio_objects);
    push_one(&mut inits, word_of("output_states"));
    push_one(&mut inits, punct_of(':'));
    let mut zeros: Vec<Emit> = Vec::new();
    push_one(&mut zeros, Emit::Token(TokenTree::Literal(String::from_str("0.0"))));
    push_one(&mut zeros, punct_of(';'));
    push_one(&mut zeros, Emit::UsizeLit(n));
    assert(emits_model(zeros@) =~= seq![
        SEmit::Token(Tree::Literal("0.0"@)),
        punct(';'),
        SEmit::Usize(n as nat),
    ]);
    push_one(&mut inits, group_of(Delimiter::Bracket, zeros));
    assert(emits_model(inits@) =~= initializers(cm.decls) + seq![
        word("output_states"@),
        punct(':'),
        SEmit::Group(
            Delimiter::Bracket,
            seq![SEmit::Token(Tree::Literal("0.0"@)), punct(';'), SEmit::Usize(n as nat)],
        ),
    ]);
    let mut ctor: Vec<Emit> = Vec::new();
    push_one(&mut ctor, word_from(&c.name));
    push_one(&mut ctor, group_of(Delimiter::Brace, inits));
    assert(emits_model(ctor@) =~= seq![word(cm.name), SEmit::Group(Delimiter::Brace, emits_model(inits@))]);

    let mut methods: Vec<Emit> = Vec::new();
    push_one(&mut methods, word_of("pub"));
    push_one(&mut methods, word_of("fn"));
    push_one(&mut methods, word_of("new"));
    let no_params: Vec<Emit> = Vec::new();
    assert(emits_model(no_params@) =~= Seq::<SEmit>::empty());
    push_one(&mut methods, group_of(Delimiter::Paren, no_params));
    push_one(&mut methods, joint_of('-'));
    push_one(&mut methods, punct_of('>'));
    push_one(&mut methods, word_of("Self"));
    push_one(&mut methods, group_of(Delimiter::Brace, ctor));
    assert(emits_model(methods@) =~= new_fn(cm));

    let ghost before_next = emits_model(methods@);
    push_one(&mut methods, word_of("pub"));
    push_one(&mut methods, word_of("fn"));
    push_one(&mut methods, word_of("next"));
    let mut recv: Vec<Emit> = Vec::new();
    push_one(&mut recv, punct_of('&'));
    push_one(&mut recv, word_of("mut"));
    push_one(&mut recv, word_of("self"));
    assert(emits_model(recv@) =~= seq![punct('&'), word("mut"@), word("self"@)]);
    push_one(&mut methods, group_of(Delimiter::Paren, recv));
    push_one(&mut methods, joint_of('-'));
    push_one(&mut methods, punct_of('>'));
    push_one(&mut methods, word_of("f32"));
    let mut stmts: Vec<Emit> = Vec::new();
    push_statements(&mut stmts, &c.exprs, &m);
    push_state_slot(&mut stmts, n - 1);
    assert(emits_model(stmts@) =~= statements(cm.exprs, object_mapping(cm.exprs)) + state_slot(
        (cm.exprs.len() - 1) as nat,
    ));
    push_one(&mut methods, group_of(Delimiter::Brace, stmts));
    assert(emits_model(methods@) =~= new_fn(cm) + next_fn(cm));

    let mut code: Vec<Emit> = Vec::new();
    push_one(&mut code, word_of("struct"));
    push_one(&mut code, word_from(&c.name));
    push_one(&mut code, group_of(Delimiter::Brace, body));
    push_one(&mut code, word_of("impl"));
    push_one(&mut code, word_from(&c.name));
    push_one(&mut code, group_of(Delimiter::Brace, methods));
    assert(emits_model(code@) =~= chain_code(cm));
    code
}

} // verus!
