//! A token writer that builds the token tree in memory.
use vstd::prelude::*;

use crate::encode::{conforms, encode_spec, lemma_encode_checks_conformance, writer_keeps_ok};
use crate::grammar::{Field, Syntax, Type};
use crate::json::JsonValue;
use crate::token::{field_views, tree_views, TokenWriter};

verus! {

/// A tree of tokens, as built by `TreeTokenWriter`.
#[derive(Debug, PartialEq)]
pub enum TokenTree {
    List(Vec<TokenTree>),
    Tuple(Vec<TokenTree>),
    /// A node of the given kind, with its fields by name.
    Tagged { tag: String, children: Vec<(String, TokenTree)> },
    String(Option<String>),
    Bool(bool),
    /// A number, as the IEEE 754 binary64 bit pattern of its value.
    Float(u64),
}

/// Mathematical view of a `TokenTree`.
pub enum TokenTreeView {
    List(Seq<TokenTreeView>),
    Tuple(Seq<TokenTreeView>),
    Tagged { tag: Seq<char>, children: Seq<(Seq<char>, TokenTreeView)> },
    String(Option<Seq<char>>),
    Bool(bool),
    Float(u64),
}

pub open spec fn token_view(t: TokenTree) -> TokenTreeView
    decreases t,
{
    match t {
        TokenTree::List(v) => TokenTreeView::List(tokens_view(v@)),
        TokenTree::Tuple(v) => TokenTreeView::Tuple(tokens_view(v@)),
        TokenTree::Tagged { tag, children } => TokenTreeView::Tagged {
            tag: tag@,
            children: named_tokens_view(children@),
        },
        TokenTree::String(s) => TokenTreeView::String(
            match s {
                Some(s) => Some(s@),
                None => None,
            },
        ),
        TokenTree::Bool(b) => TokenTreeView::Bool(b),
        TokenTree::Float(f) => TokenTreeView::Float(f),
    }
}

/// The views of a sequence of token trees.
pub open spec fn tokens_view(ts: Seq<TokenTree>) -> Seq<TokenTreeView>
    decreases ts,
{
    if ts.len() == 0 {
        Seq::empty()
    } else {
        tokens_view(ts.subrange(0, ts.len() - 1)).push(token_view(ts[ts.len() - 1]))
    }
}

/// The views of a sequence of named token trees.
pub open spec fn named_tokens_view(ts: Seq<(String, TokenTree)>) -> Seq<(Seq<char>, TokenTreeView)>
    decreases ts,
{
    if ts.len() == 0 {
        Seq::empty()
    } else {
        named_tokens_view(ts.subrange(0, ts.len() - 1)).push(
            (ts[ts.len() - 1].0@, token_view(ts[ts.len() - 1].1)),
        )
    }
}

impl View for TokenTree {
    type V = TokenTreeView;

    open spec fn view(&self) -> TokenTreeView {
        token_view(*self)
    }
}

/// `tokens_view` takes each tree by its view.
pub proof fn lemma_tokens_view(ts: Seq<TokenTree>)
    ensures
        tokens_view(ts) == tree_views(ts),
    decreases ts.len(),
{
    if ts.len() > 0 {
        lemma_tokens_view(ts.subrange(0, ts.len() - 1));
    }
    assert(tokens_view(ts) =~= tree_views(ts));
}

/// `named_tokens_view` takes each name and each tree by its view.
pub proof fn lemma_named_tokens_view(ts: Seq<(String, TokenTree)>)
    ensures
        named_tokens_view(ts).len() == ts.len(),
        forall|i: int|
            0 <= i < ts.len() ==> #[trigger] named_tokens_view(ts)[i] == (
                ts[i].0@,
                token_view(ts[i].1),
            ),
    decreases ts.len(),
{
    if ts.len() > 0 {
        let init = ts.subrange(0, ts.len() - 1);
        lemma_named_tokens_view(init);
        assert forall|i: int| 0 <= i < init.len() implies init[i] == ts[i] by {}
    }
}

impl TokenTree {
    /// A copy of the tree.
    pub fn copy(&self) -> (r: TokenTree)
        ensures
            r@ == self@,
        decreases self,
    {
        match self {
            TokenTree::List(v) => TokenTree::List(copy_all(v)),
            TokenTree::Tuple(v) => TokenTree::Tuple(copy_all(v)),
            TokenTree::Tagged { tag, children } => {
                let mut out: Vec<(String, TokenTree)> = Vec::new();
                let mut i: usize = 0;
                while i < children.len()
                    invariant
                        i <= children@.len(),
                        out@.len() == i,
                        *self == (TokenTree::Tagged { tag: *tag, children: *children }),
                        forall|j: int|
                            0 <= j < i ==> (#[trigger] out@[j]).0@ == children@[j].0@ && token_view(
                                out@[j].1,
                            ) == token_view(children@[j].1),
                    decreases children.len() - i,
                {
                    proof {
                        let ghost t = *self;
                        assert(decreases_to!(t => t->children));
                        vstd::std_specs::vec::axiom_vec_index_decreases(*children, i as int);
                        assert(decreases_to!(*self => children@[i as int].1));
                    }
                    let name = children[i].0.clone();
                    let tree = children[i].1.copy();
                    out.push((name, tree));
                    i = i + 1;
                }
                proof {
                    lemma_named_tokens_view(out@);
                    lemma_named_tokens_view(children@);
                    assert(named_tokens_view(out@) =~= named_tokens_view(children@));
                }
                TokenTree::Tagged { tag: tag.clone(), children: out }
            },
            TokenTree::String(s) => TokenTree::String(
                match s {
                    Some(s) => Some(s.clone()),
                    None => None,
                },
            ),
            TokenTree::Bool(b) => TokenTree::Bool(*b),
            TokenTree::Float(f) => TokenTree::Float(*f),
        }
    }
}

/// Copies of the given trees.
fn copy_all(v: &Vec<TokenTree>) -> (r: Vec<TokenTree>)
    ensures
        tokens_view(r@) == tokens_view(v@),
    decreases v,
{
    let mut out: Vec<TokenTree> = Vec::new();
    let mut i: usize = 0;
    while i < v.len()
        invariant
            i <= v@.len(),
            out@.len() == i,
            forall|j: int| 0 <= j < i ==> token_view(#[trigger] out@[j]) == token_view(v@[j]),
        decreases v.len() - i,
    {
        proof {
            vstd::std_specs::vec::axiom_vec_index_decreases(*v, i as int);
        }
        out.push(v[i].copy());
        i = i + 1;
    }
    proof {
        lemma_tokens_view(out@);
        lemma_tokens_view(v@);
        assert(tree_views(out@) =~= tree_views(v@));
    }
    out
}

/// The error of a `TreeTokenWriter` that has written as many tokens as its
/// limit allows.
#[derive(Debug, PartialEq)]
pub struct LimitReached;

/// A token writer that builds the token tree in memory. It may be given a
/// limit on the number of tokens that it writes; each call writes one
/// token, and a call beyond the limit fails with `LimitReached`.
pub struct TreeTokenWriter {
    remaining: Option<usize>,
}

impl View for TreeTokenWriter {
    /// The number of tokens that may still be written (`None`: no limit).
    type V = Option<usize>;

    closed spec fn view(&self) -> Option<usize> {
        self.remaining
    }
}

impl TreeTokenWriter {
    /// A writer without a limit.
    pub fn new() -> (r: TreeTokenWriter)
        ensures
            r@ is None,
    {
        TreeTokenWriter { remaining: None }
    }

    /// A writer that writes at most `limit` tokens.
    pub fn with_limit(limit: usize) -> (r: TreeTokenWriter)
        ensures
            r@ == Some(limit),
    {
        TreeTokenWriter { remaining: Some(limit) }
    }

    /// The number of tokens that may still be written (`None`: no limit).
    pub fn remaining(&self) -> (r: Option<usize>)
        ensures
            r == self@,
    {
        self.remaining
    }

    /// Count one token against the limit.
    fn take_token(&mut self) -> (r: Result<(), LimitReached>)
        ensures
            (final(self)@, r is Ok) == token_step(old(self)@),
    {
        match self.remaining {
            None => Ok(()),
            Some(0) => Err(LimitReached),
            Some(n) => {
                self.remaining = Some(n - 1);
                Ok(())
            },
        }
    }
}

/// The state after writing one token, and whether the limit allowed it.
pub open spec fn token_step(state: Option<usize>) -> (Option<usize>, bool) {
    match state {
        None => (None, true),
        Some(n) => if n == 0 {
            (Some(0), false)
        } else {
            (Some((n - 1) as usize), true)
        },
    }
}

/// The state and result after writing one token that builds `tree`.
pub open spec fn write_token(state: Option<usize>, tree: TokenTreeView) -> (
    Option<usize>,
    Result<TokenTreeView, LimitReached>,
) {
    let (next, ok) = token_step(state);
    (
        next,
        if ok {
            Ok(tree)
        } else {
            Err(LimitReached)
        },
    )
}

/// The fields of a tagged node, by name, with their trees.
pub open spec fn named_children(children: Seq<(Field, TokenTreeView)>) -> Seq<
    (Seq<char>, TokenTreeView),
> {
    children.map_values(|c: (Field, TokenTreeView)| (c.0.name@, c.1))
}

impl TokenWriter for TreeTokenWriter {
    type Tree = TokenTree;

    type Error = LimitReached;

    open spec fn spec_list(state: Option<usize>, items: Seq<TokenTreeView>) -> (
        Option<usize>,
        Result<TokenTreeView, LimitReached>,
    ) {
        write_token(state, TokenTreeView::List(items))
    }

    open spec fn spec_untagged_tuple(state: Option<usize>, children: Seq<TokenTreeView>) -> (
        Option<usize>,
        Result<TokenTreeView, LimitReached>,
    ) {
        write_token(state, TokenTreeView::Tuple(children))
    }

    open spec fn spec_tagged_tuple(
        state: Option<usize>,
        tag: Seq<char>,
        children: Seq<(Field, TokenTreeView)>,
    ) -> (Option<usize>, Result<TokenTreeView, LimitReached>) {
        write_token(state, TokenTreeView::Tagged { tag, children: named_children(children) })
    }

    open spec fn spec_string(state: Option<usize>, data: Option<Seq<char>>) -> (
        Option<usize>,
        Result<TokenTreeView, LimitReached>,
    ) {
        write_token(state, TokenTreeView::String(data))
    }

    open spec fn spec_bool(state: Option<usize>, data: bool) -> (
        Option<usize>,
        Result<TokenTreeView, LimitReached>,
    ) {
        write_token(state, TokenTreeView::Bool(data))
    }

    open spec fn spec_float(state: Option<usize>, data: u64) -> (
        Option<usize>,
        Result<TokenTreeView, LimitReached>,
    ) {
        write_token(state, TokenTreeView::Float(data))
    }

    fn list(&mut self, items: Vec<TokenTree>) -> (r: Result<TokenTree, LimitReached>) {
        proof {
            lemma_tokens_view(items@);
        }
        match self.take_token() {
            Ok(()) => Ok(TokenTree::List(items)),
            Err(e) => Err(e),
        }
    }

    fn untagged_tuple(&mut self, children: &[TokenTree]) -> (r: Result<TokenTree, LimitReached>) {
        match self.take_token() {
            Ok(()) => {},
            Err(e) => {
                return Err(e);
            },
        }
        let mut out: Vec<TokenTree> = Vec::new();
        let mut i: usize = 0;
        while i < children.len()
            invariant
                i <= children@.len(),
                out@.len() == i,
                forall|j: int| 0 <= j < i ==> (#[trigger] out@[j])@ == children@[j]@,
            decreases children.len() - i,
        {
            out.push(children[i].copy());
            i = i + 1;
        }
        proof {
            lemma_tokens_view(out@);
            assert(tree_views(out@) =~= tree_views(children@));
        }
        Ok(TokenTree::Tuple(out))
    }

    fn tagged_tuple(&mut self, tag: &str, children: &[(&Field, TokenTree)]) -> (r: Result<
        TokenTree,
        LimitReached,
    >) {
        match self.take_token() {
            Ok(()) => {},
            Err(e) => {
                return Err(e);
            },
        }
        let mut out: Vec<(String, TokenTree)> = Vec::new();
        let mut i: usize = 0;
        while i < children.len()
            invariant
                i <= children@.len(),
                out@.len() == i,
                forall|j: int|
                    0 <= j < i ==> (#[trigger] out@[j]).0@ == children@[j].0.name@ && token_view(
                        out@[j].1,
                    ) == children@[j].1@,
            decreases children.len() - i,
        {
            let name = children[i].0.name.clone();
            let tree = children[i].1.copy();
            out.push((name, tree));
            i = i + 1;
        }
        proof {
            lemma_named_tokens_view(out@);
            assert(named_tokens_view(out@) =~= named_children(field_views(children@)));
        }
        Ok(TokenTree::Tagged { tag: tag.to_owned(), children: out })
    }

    fn string(&mut self, data: Option<&str>) -> (r: Result<TokenTree, LimitReached>) {
        match self.take_token() {
            Ok(()) => Ok(
                TokenTree::String(
                    match data {
                        Some(s) => Some(s.to_owned()),
                        None => None,
                    },
                ),
            ),
            Err(e) => Err(e),
        }
    }

    fn bool(&mut self, data: bool) -> (r: Result<TokenTree, LimitReached>) {
        match self.take_token() {
            Ok(()) => Ok(TokenTree::Bool(data)),
            Err(e) => Err(e),
        }
    }

    fn float(&mut self, data: u64) -> (r: Result<TokenTree, LimitReached>) {
        match self.take_token() {
            Ok(()) => Ok(TokenTree::Float(data)),
            Err(e) => Err(e),
        }
    }
}

/// A writer without a limit never fails, so encoding into it succeeds
/// exactly on the values that conform to the type.
pub proof fn lemma_unlimited_writer_encodes_conforming(g: Syntax, value: JsonValue, ty: Type)
    ensures
        encode_spec::<TreeTokenWriter>(g, None, value, ty).1 is Ok <==> conforms(g, value, ty),
        encode_spec::<TreeTokenWriter>(g, None, value, ty).0 is None,
{
    let inv = |s: Option<usize>| s is None;
    assert(writer_keeps_ok::<TreeTokenWriter>(inv));
    lemma_encode_checks_conformance::<TreeTokenWriter>(g, None, value, ty, inv);
}

} // verus!
