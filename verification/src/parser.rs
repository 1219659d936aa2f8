//! The parser of `signal_chain!` inputs, proved to follow the grammar.

use vstd::prelude::*;
use crate::tokens::{TokenTree, Tree, Delimiter, trees, copy_trees, copy_range, render_range, lemma_group_tree};
use crate::syntax::{LitClass, classify_literal, accepts_ident, accepts_bin_op, accepts_call, char_text};
use crate::ast::{Operand, Term, Equation, AudioDeclaration, SignalChain, terms_model, equations_model, decls_model, lemma_equation_model, lemma_call_model};
use crate::grammar::{
    ParseError, literal_at, literal_class_at, ident_at, at_stop,
    operand_width, joint_run, run_chars, op_of_width, op_width, terms_end, call_ok, decl_boundary,
    call_end_from, lemma_operand_width, lemma_op_width, lemma_terms_end, lemma_call_end,
};
use crate::grammar;

verus! {

/// The string of the characters of `v`.
fn chars_text(v: &Vec<char>) -> (s: String)
    ensures
        s@ == v@,
{
    let mut s = String::new();
    let mut i: usize = 0;
    while i < v.len()
        invariant
            i <= v.len(),
            s@ == v@.subrange(0, i as int),
        decreases v.len() - i,
    {
        let c = char_text(v[i]);
        s.append(c.as_str());
        i = i + 1;
        assert(s@ =~= v@.subrange(0, i as int));
    }
    assert(v@.subrange(0, i as int) =~= v@);
    s
}

/// Whether the token at `pos` is the punctuation character `c`.
fn punct_at(s: &Vec<TokenTree>, pos: usize, c: char) -> (b: bool)
    ensures
        b == (pos < s.len() && crate::tokens::is_punct(trees(s@)[pos as int], c)),
{
    if pos < s.len() {
        match &s[pos] {
            TokenTree::Punct(ch, _) => *ch == c,
            _ => false,
        }
    } else {
        false
    }
}

/// The literal at `pos`, by its text and number of tokens.
fn read_literal(s: &Vec<TokenTree>, pos: usize) -> (r: Option<(String, usize)>)
    ensures
        match r {
            Some((t, n)) => literal_at(trees(s@), pos as int) == Some((t@, n as int)),
            None => literal_at(trees(s@), pos as int) is None,
        },
{
    if pos < s.len() {
        match &s[pos] {
            TokenTree::Literal(t) => {
                return Some((t.clone(), 1));
            },
            TokenTree::Punct(c, _) => {
                if *c == '-' && pos + 1 < s.len() {
                    match &s[pos + 1] {
                        TokenTree::Literal(t) => {
                            let mut m = char_text('-');
                            m.append(t.as_str());
                            return Some((m, 2));
                        },
                        _ => {},
                    }
                }
            },
            _ => {},
        }
    }
    None
}

/// Whether the token at `pos` is an identifier that is not a keyword.
fn read_ident_at(s: &Vec<TokenTree>, pos: usize) -> (b: bool)
    ensures
        b == ident_at(trees(s@), pos as int),
{
    if pos < s.len() {
        match &s[pos] {
            TokenTree::Ident(t) => accepts_ident(t.as_str()),
            _ => false,
        }
    } else {
        false
    }
}

/// Whether the token at `pos` is a group with delimiter `d`.
fn group_at(s: &Vec<TokenTree>, pos: usize, d: Delimiter) -> (b: bool)
    ensures
        b == (pos < s.len() && (trees(s@)[pos as int] matches Tree::Group(dd, _) && dd == d)),
{
    if pos < s.len() {
        match &s[pos] {
            TokenTree::Group(dd, _) => *dd == d,
            _ => false,
        }
    } else {
        false
    }
}

/// Whether an equation ends at `pos`.
fn read_at_stop(s: &Vec<TokenTree>, pos: usize) -> (b: bool)
    ensures
        b == at_stop(trees(s@), pos as int),
{
    pos >= s.len() || punct_at(s, pos, ';') || punct_at(s, pos, ',')
}

/// The characters of the `n` tokens from `pos`, where they are punctuation
/// characters each but the last joined to the next.
fn read_run(s: &Vec<TokenTree>, pos: usize, n: usize) -> (r: Option<Vec<char>>)
    ensures
        r is Some <==> joint_run(trees(s@), pos as int, n as int),
        r matches Some(v) ==> v@ == run_chars(trees(s@), pos as int, n as int),
    decreases n,
{
    if n == 0 {
        return Some(Vec::new());
    }
    if pos >= s.len() {
        return None;
    }
    match &s[pos] {
        TokenTree::Punct(c, j) => {
            if n > 1 && !*j {
                return None;
            }
            match read_run(s, pos + 1, n - 1) {
                Some(mut rest) => {
                    let mut v: Vec<char> = Vec::new();
                    v.push(*c);
                    v.append(&mut rest);
                    assert(v@ =~= run_chars(trees(s@), pos as int, n as int));
                    Some(v)
                },
                None => None,
            }
        },
        _ => None,
    }
}

/// The characters of the binary operator of `n` tokens at `pos`, if there is one.
fn read_op_of_width(s: &Vec<TokenTree>, pos: usize, n: usize) -> (r: Option<Vec<char>>)
    ensures
        r is Some <==> op_of_width(trees(s@), pos as int, n as int),
        r matches Some(v) ==> v@ == run_chars(trees(s@), pos as int, n as int),
{
    match read_run(s, pos, n) {
        Some(v) => {
            let text = chars_text(&v);
            if accepts_bin_op(text.as_str()) {
                Some(v)
            } else {
                None
            }
        },
        None => None,
    }
}

/// The width and characters of the binary operator at `pos`.
fn read_op(s: &Vec<TokenTree>, pos: usize) -> (r: (usize, Vec<char>))
    ensures
        r.0 == op_width(trees(s@), pos as int),
        r.0 > 0 ==> r.1@ == run_chars(trees(s@), pos as int, r.0 as int),
{
    match read_op_of_width(s, pos, 3) {
        Some(v) => {
            return (3, v);
        },
        None => {},
    }
    match read_op_of_width(s, pos, 2) {
        Some(v) => {
            return (2, v);
        },
        None => {},
    }
    match read_op_of_width(s, pos, 1) {
        Some(v) => (1, v),
        None => (0, Vec::new()),
    }
}

/// The operand at `pos`, and the number of tokens it takes.
fn read_operand(s: &Vec<TokenTree>, pos: usize) -> (r: (Result<Operand, ParseError>, usize))
    requires
        pos <= s.len(),
    ensures
        match r.0 {
            Ok(o) => grammar::parse_operand(trees(s@), pos as int) == Ok::<_, ParseError>(o.model()),
            Err(e) => grammar::parse_operand(trees(s@), pos as int) == Err::<crate::ast::SOperand, _>(e),
        },
        r.1 == operand_width(trees(s@), pos as int),
    decreases s, s.len() - pos, 1int,
{
    let ghost t = trees(s@);
    match read_literal(s, pos) {
        Some((text, n)) => {
            let k = classify_literal(text.as_str());
            if k == LitClass::Int {
                return (Ok(Operand::Int(text)), n);
            } else if k == LitClass::Float {
                return (Ok(Operand::Float(text)), n);
            }
        },
        None => {},
    }
    assert(literal_class_at(t, pos as int) != LitClass::Int);
    assert(literal_class_at(t, pos as int) != LitClass::Float);
    if read_ident_at(s, pos) {
        let name = match &s[pos] {
            TokenTree::Ident(n) => n.clone(),
            _ => String::new(),
        };
        if group_at(s, pos + 1, Delimiter::Paren) {
            match &s[pos + 1] {
                TokenTree::Group(_, inner) => {
                    proof {
                        lemma_group_tree(s@[pos + 1]);
                        assert(decreases_to!(s => s@));
                        assert(decreases_to!(s@ => s@[pos + 1]));
                        assert(decreases_to!(s@[pos + 1] => *inner));
                    }
                    match read_list(inner, 0, ',') {
                        Ok(args) => {
                            let o = Operand::Call(name, args);
                            proof {
                                lemma_call_model(o);
                            }
                            (Ok(o), 2)
                        },
                        Err(e) => (Err(e), 2),
                    }
                },
                _ => (Err(ParseError::Syntax), 2),
            }
        } else {
            (Ok(Operand::Name(name)), 1)
        }
    } else if group_at(s, pos, Delimiter::Paren) {
        (Err(ParseError::Unending), 0)
    } else {
        (Ok(Operand::Empty), 0)
    }
}

/// The terms of the equation at `pos`, and where it ends.
fn read_terms(s: &Vec<TokenTree>, pos: usize) -> (r: (Result<Vec<Term>, ParseError>, usize))
    requires
        pos <= s.len(),
    ensures
        match r.0 {
            Ok(v) => grammar::parse_terms(trees(s@), pos as int) == Ok::<_, ParseError>(terms_model(v@))
                && r.1 == terms_end(trees(s@), pos as int),
            Err(e) => grammar::parse_terms(trees(s@), pos as int) == Err::<Seq<crate::ast::STerm>, _>(e),
        },
    decreases s, s.len() - pos, 2int,
{
    let ghost t = trees(s@);
    let (o, w) = read_operand(s, pos);
    proof {
        lemma_operand_width(t, pos as int);
    }
    match o {
        Err(e) => (Err(e), 0),
        Ok(o) => {
            let p1 = pos + w;
            if read_at_stop(s, p1) {
                let mut v: Vec<Term> = Vec::new();
                v.push(Term::Operand(o));
                assert(terms_model(v@) =~= seq![crate::ast::STerm::Operand(o.model())]);
                return (Ok(v), p1);
            }
            let (n, chars) = read_op(s, p1);
            proof {
                lemma_op_width(t, p1 as int);
            }
            if n == 0 {
                return (Err(ParseError::Syntax), 0);
            }
            let p2 = p1 + n;
            let ghost head_model = seq![
                crate::ast::STerm::Operand(o.model()),
                crate::ast::STerm::Op(chars@),
            ];
            let mut head: Vec<Term> = Vec::new();
            head.push(Term::Operand(o));
            head.push(Term::Op(chars));
            assert(terms_model(head@) =~= head_model);
            if read_at_stop(s, p2) {
                return (Ok(head), p2);
            }
            let (rest, end) = read_terms(s, p2);
            match rest {
                Err(e) => (Err(e), 0),
                Ok(mut rest) => {
                    let ghost rest_model = terms_model(rest@);
                    head.append(&mut rest);
                    assert(terms_model(head@) =~= head_model + rest_model);
                    (Ok(head), end)
                },
            }
        },
    }
}

/// The equations from `pos` to the end, separated by `sep`.
fn read_list(s: &Vec<TokenTree>, pos: usize, sep: char) -> (r: Result<Vec<Equation>, ParseError>)
    requires
        pos <= s.len(),
    ensures
        match r {
            Ok(v) => grammar::parse_list(trees(s@), pos as int, sep) == Ok::<_, ParseError>(equations_model(v@)),
            Err(e) => grammar::parse_list(trees(s@), pos as int, sep) == Err::<Seq<crate::ast::SEquation>, _>(e),
        },
    decreases s, s.len() - pos, 3int,
{
    let ghost t = trees(s@);
    if pos >= s.len() {
        let v: Vec<Equation> = Vec::new();
        assert(equations_model(v@) =~= Seq::empty());
        return Ok(v);
    }
    let (ts, p1) = read_terms(s, pos);
    match ts {
        Err(e) => Err(e),
        Ok(ts) => {
            let eq = Equation { terms: ts };
            proof {
                lemma_equation_model(eq);
                lemma_terms_end(t, pos as int);
            }
            if p1 >= s.len() {
                let mut v: Vec<Equation> = Vec::new();
                v.push(eq);
                assert(equations_model(v@) =~= seq![eq.model()]);
                return Ok(v);
            }
            if punct_at(s, p1, sep) {
                let ghost eq_model = eq.model();
                match read_list(s, p1 + 1, sep) {
                    Err(e) => Err(e),
                    Ok(mut rest) => {
                        let ghost rest_model = equations_model(rest@);
                        let mut v: Vec<Equation> = Vec::new();
                        v.push(eq);
                        v.append(&mut rest);
                        assert(equations_model(v@) =~= seq![eq_model] + rest_model);
                        Ok(v)
                    },
                }
            } else {
                Err(ParseError::Syntax)
            }
        },
    }
}

/// Whether the tokens from `start` to `e` are one call expression.
fn read_call_ok(s: &Vec<TokenTree>, start: usize, e: usize) -> (b: bool)
    ensures
        b == call_ok(trees(s@), start as int, e as int),
{
    if start < e && e <= s.len() && group_at(s, e - 1, Delimiter::Paren) {
        let text = render_range(s, start, e);
        accepts_call(text.as_str())
    } else {
        false
    }
}

/// Whether an audio declaration may end at `e`.
fn read_decl_boundary(s: &Vec<TokenTree>, e: usize) -> (b: bool)
    ensures
        b == decl_boundary(trees(s@), e as int),
{
    e == s.len() || punct_at(s, e, ',')
}

/// Where the call expression that starts at `start` ends.
fn read_call_end(s: &Vec<TokenTree>, start: usize) -> (r: Option<usize>)
    ensures
        match r {
            Some(e) => call_end_from(trees(s@), start as int, start as int) == Some(e as int),
            None => call_end_from(trees(s@), start as int, start as int) is None,
        },
{
    let ghost t = trees(s@);
    if start > s.len() {
        return None;
    }
    let mut e: usize = start;
    while e < s.len()
        invariant
            start <= e <= s.len(),
            call_end_from(t, start as int, start as int) == call_end_from(t, start as int, e as int),
            t == trees(s@),
        decreases s.len() - e,
    {
        if read_decl_boundary(s, e) && read_call_ok(s, start, e) {
            return Some(e);
        }
        e = e + 1;
    }
    if read_call_ok(s, start, e) {
        Some(e)
    } else {
        assert(call_end_from(t, start as int, e + 1) is None);
        None
    }
}

/// The audio declaration at `pos`, and where it ends.
fn read_decl(s: &Vec<TokenTree>, pos: usize) -> (r: Option<(AudioDeclaration, usize)>)
    ensures
        match r {
            Some((d, e)) => grammar::parse_decl(trees(s@), pos as int) == Some((d.model(), e as int)),
            None => grammar::parse_decl(trees(s@), pos as int) is None,
        },
{
    let ghost t = trees(s@);
    if pos < s.len() && read_ident_at(s, pos) && pos + 1 < s.len() && punct_at(s, pos + 1, ':') {
        match read_call_end(s, pos + 2) {
            Some(e) => {
                proof {
                    lemma_call_end(t, pos + 2, pos + 2);
                }
                let ident = match &s[pos] {
                    TokenTree::Ident(n) => n.clone(),
                    _ => String::new(),
                };
                let func = copy_range(s, pos + 2, e - 1);
                match &s[e - 1] {
                    TokenTree::Group(_, inner) => {
                        proof {
                            lemma_group_tree(s@[e - 1]);
                        }
                        let args = copy_trees(inner);
                        let d = AudioDeclaration { ident, func, args };
                        Some((d, e))
                    },
                    _ => None,
                }
            },
            None => None,
        }
    } else {
        None
    }
}

/// The audio declarations from `pos` to the end.
fn read_decls(s: &Vec<TokenTree>, pos: usize) -> (r: Option<Vec<AudioDeclaration>>)
    ensures
        match r {
            Some(v) => grammar::parse_decls(trees(s@), pos as int) == Some(decls_model(v@)),
            None => grammar::parse_decls(trees(s@), pos as int) is None,
        },
    decreases s.len() - pos,
{
    let ghost t = trees(s@);
    if pos >= s.len() {
        let v: Vec<AudioDeclaration> = Vec::new();
        assert(decls_model(v@) =~= Seq::empty());
        return Some(v);
    }
    match read_decl(s, pos) {
        None => None,
        Some((d, e)) => {
            proof {
                lemma_call_end(t, pos + 2, pos + 2);
            }
            let ghost d_model = d.model();
            if e >= s.len() {
                let mut v: Vec<AudioDeclaration> = Vec::new();
                v.push(d);
                assert(decls_model(v@) =~= seq![d_model]);
                return Some(v);
            }
            if punct_at(s, e, ',') {
                match read_decls(s, e + 1) {
                    None => None,
                    Some(mut rest) => {
                        let ghost rest_model = decls_model(rest@);
                        let mut v: Vec<AudioDeclaration> = Vec::new();
                        v.push(d);
                        v.append(&mut rest);
                        assert(decls_model(v@) =~= seq![d_model] + rest_model);
                        Some(v)
                    },
                }
            } else {
                None
            }
        },
    }
}

/// Parses a `signal_chain!` input: the name of the chain, its audio objects
/// in parentheses and its equations in braces, the way syn reads them.
pub fn parse_signal_chain(s: &Vec<TokenTree>) -> (r: Result<SignalChain, ParseError>)
    ensures
        match r {
            Ok(c) => grammar::parse_chain(trees(s@)) == Ok::<_, ParseError>(c.model()),
            Err(e) => grammar::parse_chain(trees(s@)) == Err::<crate::ast::SChain, _>(e),
        },
{
    if !read_ident_at(s, 0) || !group_at(s, 1, Delimiter::Paren) {
        return Err(ParseError::Syntax);
    }
    let name = match &s[0] {
        TokenTree::Ident(n) => n.clone(),
        _ => String::new(),
    };
    let decls = match &s[1] {
        TokenTree::Group(_, inner) => {
            proof {
                lemma_group_tree(s@[1]);
            }
            read_decls(inner, 0)
        },
        _ => None,
    };
    match decls {
        None => Err(ParseError::Syntax),
        Some(decls) => {
            if !group_at(s, 2, Delimiter::Brace) {
                return Err(ParseError::Syntax);
            }
            let exprs = match &s[2] {
                TokenTree::Group(_, inner) => {
                    proof {
                        lemma_group_tree(s@[2]);
                    }
                    read_list(inner, 0, ';')
                },
                _ => Err(ParseError::Syntax),
            };
            match exprs {
                Err(e) => Err(e),
                Ok(exprs) => {
                    if s.len() > 3 {
                        Err(ParseError::Syntax)
                    } else {
                        Ok(SignalChain { name, audio_objects: decls, exprs })
                    }
                },
            }
        },
    }
}

} // verus!
