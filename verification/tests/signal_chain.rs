use signal_macro::ast::{Operand, Term};
use signal_macro::emit::Emit;
use signal_macro::expand::{signal_chain, Expansion};
use signal_macro::grammar::ParseError;
use signal_macro::parser::parse_signal_chain;
use signal_macro::tokens::{render_range, Delimiter, TokenTree};

fn convert(ts: proc_macro2::TokenStream, out: &mut Vec<TokenTree>) {
    for t in ts {
        match t {
            proc_macro2::TokenTree::Ident(i) => out.push(TokenTree::Ident(i.to_string())),
            proc_macro2::TokenTree::Punct(p) => out.push(TokenTree::Punct(
                p.as_char(),
                p.spacing() == proc_macro2::Spacing::Joint,
            )),
            proc_macro2::TokenTree::Literal(l) => out.push(TokenTree::Literal(l.to_string())),
            proc_macro2::TokenTree::Group(g) => {
                let d = match g.delimiter() {
                    proc_macro2::Delimiter::Parenthesis => Delimiter::Paren,
                    proc_macro2::Delimiter::Brace => Delimiter::Brace,
                    proc_macro2::Delimiter::Bracket => Delimiter::Bracket,
                    proc_macro2::Delimiter::None => {
                        convert(g.stream(), out);
                        continue;
                    }
                };
                let mut inner = Vec::new();
                convert(g.stream(), &mut inner);
                out.push(TokenTree::Group(d, inner));
            }
        }
    }
}

fn lex(src: &str) -> Vec<TokenTree> {
    let mut v = Vec::new();
    convert(src.parse().unwrap(), &mut v);
    v
}

fn show_tree(t: &TokenTree, out: &mut Vec<String>) {
    match t {
        TokenTree::Ident(s) | TokenTree::Literal(s) => out.push(s.clone()),
        TokenTree::Punct(c, j) => out.push(format!("{}{}", c, if *j { "~" } else { "" })),
        TokenTree::Group(d, v) => {
            let (o, c) = delims(*d);
            out.push(o.to_string());
            for x in v {
                show_tree(x, out);
            }
            out.push(c.to_string());
        }
    }
}

fn delims(d: Delimiter) -> (&'static str, &'static str) {
    match d {
        Delimiter::Paren => ("(", ")"),
        Delimiter::Brace => ("{", "}"),
        Delimiter::Bracket => ("[", "]"),
    }
}

fn show_emit(e: &Emit, out: &mut Vec<String>) {
    match e {
        Emit::Token(t) => show_tree(t, out),
        Emit::UsizeLit(n) => out.push(format!("{}usize", n)),
        Emit::F32OfInt(t) => out.push(format!("f32<{}>", t)),
        Emit::Group(d, v) => {
            let (o, c) = delims(*d);
            out.push(o.to_string());
            for x in v {
                show_emit(x, out);
            }
            out.push(c.to_string());
        }
    }
}

fn code(src: &str) -> String {
    match signal_chain(&lex(src)) {
        Expansion::Code(v) => {
            let mut out = Vec::new();
            for e in &v {
                show_emit(e, &mut out);
            }
            out.join(" ")
        }
        other => panic!("no code: {:?}", other),
    }
}

#[test]
fn example_chain_is_written() {
    let src = "SignalChain (
        modmod: NaiveTableOsc(&SINE_2048),
        modulator: NaiveTableOsc(&SINE_2048),
        sine_osc: NaiveTableOsc(&SINE_2048),
        disto_mod:NaiveTableOsc(&TRIANGLE_2),
        output: TanHWaveshaper()
    )
    {
        modmod(0.3, 300, 660);
        modulator(modmod, 220, 440);
        sine_osc(modulator, 1.0, 0);
        disto_mod(2.3, 3, 3.2);
        output(sine_osc + 0.2 * output, disto_mod);
    }";
    let expected = "struct SignalChain { \
        modmod : NaiveTableOsc , modulator : NaiveTableOsc , sine_osc : NaiveTableOsc , \
        disto_mod : NaiveTableOsc , output : TanHWaveshaper , \
        output_states : [ f32 ; 5usize ] } \
        impl SignalChain { pub fn new ( ) -~ > Self { SignalChain { \
        modmod : NaiveTableOsc :~ : new ( & SINE_2048 ) , \
        modulator : NaiveTableOsc :~ : new ( & SINE_2048 ) , \
        sine_osc : NaiveTableOsc :~ : new ( & SINE_2048 ) , \
        disto_mod : NaiveTableOsc :~ : new ( & TRIANGLE_2 ) , \
        output : TanHWaveshaper :~ : new ( ) , \
        output_states : [ 0.0 ; 5usize ] } } \
        pub fn next ( & mut self ) -~ > f32 { \
        self . output_states [ 0usize ] = self . modmod . next ( 0.3 , f32<300> , f32<660> , ) ; \
        self . output_states [ 1usize ] = self . modulator . next ( self . output_states [ 0usize ] , f32<220> , f32<440> , ) ; \
        self . output_states [ 2usize ] = self . sine_osc . next ( self . output_states [ 1usize ] , 1.0 , f32<0> , ) ; \
        self . output_states [ 3usize ] = self . disto_mod . next ( 2.3 , f32<3> , 3.2 , ) ; \
        self . output_states [ 4usize ] = self . output . next ( self . output_states [ 2usize ] + 0.2 * self . output_states [ 4usize ] , self . output_states [ 3usize ] , ) ; \
        self . output_states [ 4usize ] } }";
    assert_eq!(code(src), expected);
}

#[test]
fn unknown_names_and_calls_stay_as_written() {
    let src = "MySignalChain (
        modulator: Naivetableosc(&TRIANGLE_2),
        generator: Naivetableosc(&SINE_2048),
        modifier: TanhWaveshaper(),
    )
    {
        modulator(1.2, 220.0) + lel + 660;
        generator(modulator, whatevershit(3, 4, 5) + 3);
        modifier(generator);
    }";
    let c = code(src);
    assert!(c.contains(
        "self . output_states [ 0usize ] = self . modulator . next ( 1.2 , 220.0 , ) + lel + f32<660> ;"
    ));
    assert!(c.contains(
        "self . output_states [ 1usize ] = self . generator . next ( self . output_states [ 0usize ] , whatevershit ( f32<3> , f32<4> , f32<5> , ) + f32<3> , ) ;"
    ));
    assert!(c.contains(
        "self . output_states [ 2usize ] = self . modifier . next ( self . output_states [ 1usize ] , ) ;"
    ));
    assert!(c.ends_with("self . output_states [ 2usize ] } }"));
}

#[test]
fn equation_without_call_takes_no_mapping_entry() {
    // The second equation calls no object, so `b` gets mapping entry 1,
    // although its equation writes slot 2.
    let c = code("Q ( a: A(), b: B() ) { a(1.0); 2.0 + a; b(a); b + 1.0; }");
    assert!(c.contains("self . output_states [ 1usize ] = self . output_states [ 0usize ] + 2.0 ;")
        || c.contains("self . output_states [ 1usize ] = 2.0 + self . output_states [ 0usize ] ;"));
    assert!(c.contains("self . output_states [ 3usize ] = self . output_states [ 1usize ] + 1.0 ;"));
}

#[test]
fn name_reads_the_slot_of_its_equation() {
    let c = code("Q ( a: A(), b: B() ) { a(1.0); b(a); a + b; }");
    assert!(c.contains("self . output_states [ 2usize ] = self . output_states [ 0usize ] + self . output_states [ 1usize ] ;"));
}

#[test]
fn first_call_of_an_equation_is_the_one_mapped() {
    let c = code("Q ( a: A(), b: B() ) { a(1.0) + b(2.0); b(a); }");
    // `b` is mapped by the second equation only: slot 1.
    assert!(c.contains("self . output_states [ 0usize ] = self . a . next ( 1.0 , ) + self . b . next ( 2.0 , ) ;"));
    assert!(c.contains("self . output_states [ 1usize ] = self . b . next ( self . output_states [ 0usize ] , ) ;"));
}

#[test]
fn negative_literal_is_one_operand() {
    let c = code("Q ( a: A() ) { a(-3, -1.5); }");
    assert!(c.contains("self . a . next ( f32<-3> , -1.5 , )"));
}

#[test]
fn operators_take_the_longest_match() {
    let c = code("Q ( a: A() ) { a(1.0) <<= 2.0 && x != y; }");
    assert!(c.contains("<~ <~ = 2.0 &~ & x !~ = y"));
}

#[test]
fn turbofish_constructor_and_trailing_commas() {
    let c = code("Q ( a: Osc::<A, B>(x, y,), ) { a(1.0,); }");
    assert!(c.contains("a : Osc :~ :~ < A , B > ,"));
    assert!(c.contains("a : Osc :~ :~ < A , B > :~ : new ( x , y , ) ,"));
}

#[test]
fn operand_missing_gives_no_code() {
    assert!(matches!(signal_chain(&lex("Q ( ) { -x; }")), Expansion::Unwritable));
    assert!(matches!(signal_chain(&lex("Q ( ) { + 3; }")), Expansion::Unwritable));
    assert!(matches!(signal_chain(&lex("Q ( ) { a; ; }")), Expansion::Unwritable));
    assert!(matches!(signal_chain(&lex("Q ( ) { f(a, - b); }")), Expansion::Unwritable));
}

#[test]
fn trailing_operator_is_kept() {
    let c = code("Q ( a: A() ) { a(1.0) + ; }");
    assert!(c.contains("self . output_states [ 0usize ] = self . a . next ( 1.0 , ) + ;"));
}

#[test]
fn no_equation_gives_no_code() {
    assert!(matches!(signal_chain(&lex("Q ( a: A() ) { }")), Expansion::Unwritable));
}

#[test]
fn parenthesised_operand_never_ends() {
    assert!(matches!(
        signal_chain(&lex("Q ( ) { (a + b) * 2.0; }")),
        Expansion::Rejected(ParseError::Unending)
    ));
    assert!(matches!(
        signal_chain(&lex("Q ( ) { a * (b); }")),
        Expansion::Rejected(ParseError::Unending)
    ));
}

#[test]
fn malformed_inputs_are_rejected() {
    let bad = [
        "Q { a; }",
        "Q ( ) ( a; )",
        "Q ( ) { a; } extra",
        "fn ( ) { a; }",
        "Q ( a: A ) { a; }",
        "Q ( a A() ) { a; }",
        "Q ( a: A() b: B() ) { a; }",
        "Q ( ) { a b; }",
        "Q ( ) { a , b; }",
        "Q ( ) { self; }",
        "Q ( ) { \"text\"; }",
        "Q ( ) { a = b; }",
    ];
    for src in bad {
        assert!(
            matches!(signal_chain(&lex(src)), Expansion::Rejected(ParseError::Syntax)),
            "{}",
            src
        );
    }
}

#[test]
fn parsed_chain_has_its_parts() {
    let c = parse_signal_chain(&lex("Q ( a: A(1), b: B() ) { a(2) + 1.5; x; }")).unwrap();
    assert_eq!(c.name, "Q");
    assert_eq!(c.audio_objects.len(), 2);
    assert_eq!(c.audio_objects[1].ident, "b");
    assert_eq!(c.exprs.len(), 2);
    let t = &c.exprs[0].terms;
    assert_eq!(t.len(), 3);
    match &t[0] {
        Term::Operand(Operand::Call(n, args)) => {
            assert_eq!(n, "a");
            assert_eq!(args.len(), 1);
            assert!(matches!(&args[0].terms[0], Term::Operand(Operand::Int(s)) if s == "2"));
        }
        other => panic!("{:?}", other),
    }
    assert!(matches!(&t[1], Term::Op(c) if c == &vec!['+']));
    assert!(matches!(&t[2], Term::Operand(Operand::Float(s)) if s == "1.5"));
    assert!(matches!(&c.exprs[1].terms[0], Term::Operand(Operand::Name(s)) if s == "x"));
}

#[test]
fn keyword_cannot_name_a_chain_or_object() {
    assert!(parse_signal_chain(&lex("struct ( ) { a; }")).is_err());
    assert!(parse_signal_chain(&lex("Q ( self: A() ) { a; }")).is_err());
    assert!(parse_signal_chain(&lex("Q ( r#fn: A() ) { a; }")).is_ok());
}

#[test]
fn render_gives_source_text() {
    let v = lex("a::b(1, \"x\") += [c]");
    assert_eq!(render_range(&v, 0, v.len()), "a :: b (1 , \"x\" ) += [c ] ");
}
