//! The token model: the macro's input and the code it writes, as plain values.

use vstd::prelude::*;
use crate::syntax::char_text;

verus! {

/// The delimiter of a token group.
#[derive(Clone, Copy, PartialEq, Eq, Structural, Debug)]
pub enum Delimiter {
    Paren,
    Brace,
    Bracket,
}

/// A token tree: an identifier, a punctuation character (with whether it is
/// joined to the next punctuation character), a literal (by its text), or a
/// delimited group of token trees.
#[derive(Debug)]
pub enum TokenTree {
    Ident(String),
    Punct(char, bool),
    Literal(String),
    Group(Delimiter, Vec<TokenTree>),
}

/// The mathematical value of a token tree.
pub enum Tree {
    Ident(Seq<char>),
    Punct(char, bool),
    Literal(Seq<char>),
    Group(Delimiter, Seq<Tree>),
}

impl TokenTree {
    /// The value of this token tree.
    pub open spec fn tree(&self) -> Tree
        decreases self,
    {
        match self {
            TokenTree::Ident(s) => Tree::Ident(s@),
            TokenTree::Punct(c, j) => Tree::Punct(*c, *j),
            TokenTree::Literal(s) => Tree::Literal(s@),
            TokenTree::Group(d, v) => Tree::Group(
                *d,
                Seq::new(
                    v@.len(),
                    |i: int|
                        {
                            if 0 <= i < v@.len() {
                                proof {
                                    assert(decreases_to!(v => v@));
                                }
                                v@[i].tree()
                            } else {
                                Tree::Punct(' ', false)
                            }
                        },
                ),
            ),
        }
    }
}

/// The values of a sequence of token trees.
pub open spec fn trees(v: Seq<TokenTree>) -> Seq<Tree> {
    Seq::new(v.len(), |i: int| v[i].tree())
}

/// The value of a group is its delimiter and the values of its content.
pub proof fn lemma_group_tree(t: TokenTree)
    requires
        t is Group,
    ensures
        t.tree() == Tree::Group(t->Group_0, trees(t->Group_1@)),
{
    assert(t.tree()->Group_1 =~= trees(t->Group_1@));
}

/// The opening character of a delimiter.
pub open spec fn open_char(d: Delimiter) -> char {
    match d {
        Delimiter::Paren => '(',
        Delimiter::Brace => '{',
        Delimiter::Bracket => '[',
    }
}

/// The closing character of a delimiter.
pub open spec fn close_char(d: Delimiter) -> char {
    match d {
        Delimiter::Paren => ')',
        Delimiter::Brace => '}',
        Delimiter::Bracket => ']',
    }
}

/// The source text of a token tree: words and literals are followed by a
/// space, a punctuation character by a space unless it is joined to the next
/// one, and a group by its delimiters and a space.
pub open spec fn render_tree(t: Tree) -> Seq<char>
    decreases t,
{
    match t {
        Tree::Ident(s) => s + seq![' '],
        Tree::Literal(s) => s + seq![' '],
        Tree::Punct(c, joint) => if joint {
            seq![c]
        } else {
            seq![c, ' ']
        },
        Tree::Group(d, inner) => seq![open_char(d)] + render_seq(inner) + seq![close_char(d), ' '],
    }
}

/// The source text of a sequence of token trees.
pub open spec fn render_seq(s: Seq<Tree>) -> Seq<char>
    decreases s,
{
    if s.len() == 0 {
        Seq::empty()
    } else {
        proof {
            assert(decreases_to!(s => s.subrange(0, s.len() - 1)));
        }
        render_seq(s.drop_last()) + render_tree(s.last())
    }
}

/// Whether `t` is the punctuation character `c`, whatever its spacing.
pub open spec fn is_punct(t: Tree, c: char) -> bool {
    t matches Tree::Punct(ch, _) && ch == c
}

/// A copy of `t`, with the same value.
pub fn copy_tree(t: &TokenTree) -> (r: TokenTree)
    ensures
        r.tree() == t.tree(),
    decreases t,
{
    match t {
        TokenTree::Ident(s) => TokenTree::Ident(s.clone()),
        TokenTree::Punct(c, j) => TokenTree::Punct(*c, *j),
        TokenTree::Literal(s) => TokenTree::Literal(s.clone()),
        TokenTree::Group(d, v) => {
            let inner = copy_trees(v);
            let r = TokenTree::Group(*d, inner);
            proof {
                lemma_group_tree(r);
                lemma_group_tree(*t);
            }
            r
        },
    }
}

/// A copy of `v`, with the same values.
pub fn copy_trees(v: &Vec<TokenTree>) -> (r: Vec<TokenTree>)
    ensures
        trees(r@) == trees(v@),
    decreases v,
{
    let mut r: Vec<TokenTree> = Vec::new();
    let mut i: usize = 0;
    while i < v.len()
        invariant
            i <= v.len(),
            r.len() == i,
            forall|k: int| 0 <= k < i ==> (#[trigger] r@[k]).tree() == v@[k].tree(),
        decreases v.len() - i,
    {
        proof {
            assert(decreases_to!(v => v@[i as int]));
        }
        let c = copy_tree(&v[i]);
        r.push(c);
        i = i + 1;
    }
    assert(trees(r@) =~= trees(v@));
    r
}

/// The opening text of a delimiter.
fn open_text(d: Delimiter) -> (s: String)
    ensures
        s@ == seq![open_char(d)],
{
    match d {
        Delimiter::Paren => char_text('('),
        Delimiter::Brace => char_text('{'),
        Delimiter::Bracket => char_text('['),
    }
}

/// The closing text of a delimiter, followed by a space.
fn close_text(d: Delimiter) -> (s: String)
    ensures
        s@ == seq![close_char(d), ' '],
{
    let mut s = match d {
        Delimiter::Paren => char_text(')'),
        Delimiter::Brace => char_text('}'),
        Delimiter::Bracket => char_text(']'),
    };
    let sp = char_text(' ');
    s.append(sp.as_str());
    s
}

/// Appends the source text of `t` to `out`.
fn render_tree_into(t: &TokenTree, out: &mut String)
    ensures
        final(out)@ == old(out)@ + render_tree(t.tree()),
    decreases t,
{
    let sp = char_text(' ');
    match t {
        TokenTree::Ident(s) => {
            out.append(s.as_str());
            out.append(sp.as_str());
        },
        TokenTree::Literal(s) => {
            out.append(s.as_str());
            out.append(sp.as_str());
        },
        TokenTree::Punct(c, j) => {
            let cs = char_text(*c);
            out.append(cs.as_str());
            if !*j {
                out.append(sp.as_str());
            }
        },
        TokenTree::Group(d, v) => {
            proof {
                lemma_group_tree(*t);
            }
            let o = open_text(*d);
            out.append(o.as_str());
            render_range_into(v, 0, v.len(), out);
            assert(trees(v@).subrange(0, v.len() as int) =~= trees(v@));
            let c = close_text(*d);
            out.append(c.as_str());
        },
    }
}

/// Appends the source text of the tokens of `v` from `start` to `end`.
fn render_range_into(v: &Vec<TokenTree>, start: usize, end: usize, out: &mut String)
    requires
        start <= end <= v.len(),
    ensures
        final(out)@ == old(out)@ + render_seq(trees(v@).subrange(start as int, end as int)),
    decreases v,
{
    let mut i: usize = start;
    while i < end
        invariant
            start <= i <= end <= v.len(),
            out@ == old(out)@ + render_seq(trees(v@).subrange(start as int, i as int)),
        decreases end - i,
    {
        proof {
            assert(decreases_to!(v => v@[i as int]));
            assert(trees(v@).subrange(start as int, i + 1).drop_last() =~= trees(v@).subrange(
                start as int,
                i as int,
            ));
        }
        render_tree_into(&v[i], out);
        i = i + 1;
    }
}

/// The source text of the tokens of `v` from `start` to `end`.
pub fn render_range(v: &Vec<TokenTree>, start: usize, end: usize) -> (s: String)
    requires
        start <= end <= v.len(),
    ensures
        s@ == render_seq(trees(v@).subrange(start as int, end as int)),
{
    let mut s = String::new();
    render_range_into(v, start, end, &mut s);
    assert(s@ =~= render_seq(trees(v@).subrange(start as int, end as int)));
    s
}

/// A copy of the tokens of `v` from `start` to `end`.
pub fn copy_range(v: &Vec<TokenTree>, start: usize, end: usize) -> (r: Vec<TokenTree>)
    requires
        start <= end <= v.len(),
    ensures
        trees(r@) == trees(v@).subrange(start as int, end as int),
{
    let mut r: Vec<TokenTree> = Vec::new();
    let mut i: usize = start;
    while i < end
        invariant
            start <= i <= end <= v.len(),
            r.len() == i - start,
            forall|k: int| 0 <= k < r.len() ==> (#[trigger] r@[k]).tree() == v@[k + start].tree(),
        decreases end - i,
    {
        let c = copy_tree(&v[i]);
        r.push(c);
        i = i + 1;
    }
    assert(trees(r@) =~= trees(v@).subrange(start as int, end as int));
    r
}

} // verus!
