//! The intermediate serialization tree, and its mathematical view.
use vstd::prelude::*;

use crate::kind::{Kind, Statement};

verus! {

/// A raw node in the intermediate serialization tree.
///
/// Once written to disk, an instance of `Unlabelled` does *not* contain
/// by itself sufficient information to determine which enum case is actually
/// used. This information MUST be extrapolated from the context, typically from
/// a parent `Labelled`.
pub enum Unlabelled {
    /// A string designed to be represented as an atom (e.g. literal strings,
    /// identifiers, ...). Will be internalized in the atoms table. Length
    /// will be written to the file.
    Atom(String),
    /// One raw byte.
    RawByte(u8),
    /// A node with a number of children determined by the grammar.
    /// Length will NOT be written to the file. Can have 0 children.
    Tuple(Vec<SerializeTree>),
    /// A node with a number of children left unspecified by the grammar
    /// (typically a list). Length will be written to the file.
    List(Vec<SerializeTree>),
}

/// A node in the intermediate serialization tree.
///
/// Once written to disk, the `kind` MUST contain sufficient information
/// to determine the structure of the `tree`.
pub struct Labelled {
    pub kind: Kind,
    pub tree: Unlabelled,
}

pub enum SerializeTree {
    Unlabelled(Unlabelled),
    /// Label a subtree with parsing information.
    Labelled(Labelled),
}

/// Mathematical view of an `Unlabelled` node.
pub enum UnlabelledView {
    Atom(Seq<char>),
    RawByte(u8),
    Tuple(Seq<TreeView>),
    List(Seq<TreeView>),
}

/// Mathematical view of a `Labelled` node.
pub struct LabelledView {
    pub kind: Kind,
    pub tree: UnlabelledView,
}

/// Mathematical view of a `SerializeTree`.
pub enum TreeView {
    Unlabelled(UnlabelledView),
    Labelled(LabelledView),
}

pub open spec fn unlabelled_view(u: Unlabelled) -> UnlabelledView
    decreases u,
{
    match u {
        Unlabelled::Atom(s) => UnlabelledView::Atom(s@),
        Unlabelled::RawByte(b) => UnlabelledView::RawByte(b),
        Unlabelled::Tuple(v) => UnlabelledView::Tuple(trees_view(v@)),
        Unlabelled::List(v) => UnlabelledView::List(trees_view(v@)),
    }
}

pub open spec fn labelled_view(l: Labelled) -> LabelledView
    decreases l,
{
    LabelledView { kind: l.kind, tree: unlabelled_view(l.tree) }
}

pub open spec fn tree_view(t: SerializeTree) -> TreeView
    decreases t,
{
    match t {
        SerializeTree::Unlabelled(u) => TreeView::Unlabelled(unlabelled_view(u)),
        SerializeTree::Labelled(l) => TreeView::Labelled(labelled_view(l)),
    }
}

/// The views of a sequence of trees, element by element.
pub open spec fn trees_view(ts: Seq<SerializeTree>) -> Seq<TreeView>
    decreases ts,
{
    if ts.len() == 0 {
        Seq::empty()
    } else {
        trees_view(ts.subrange(0, ts.len() - 1)).push(tree_view(ts[ts.len() - 1]))
    }
}

impl View for Unlabelled {
    type V = UnlabelledView;

    open spec fn view(&self) -> UnlabelledView {
        unlabelled_view(*self)
    }
}

impl View for Labelled {
    type V = LabelledView;

    open spec fn view(&self) -> LabelledView {
        labelled_view(*self)
    }
}

impl View for SerializeTree {
    type V = TreeView;

    open spec fn view(&self) -> TreeView {
        tree_view(*self)
    }
}

/// `trees_view` maps each tree to its view, keeping length and positions.
pub proof fn lemma_trees_view(ts: Seq<SerializeTree>)
    ensures
        trees_view(ts).len() == ts.len(),
        forall|i: int| 0 <= i < ts.len() ==> #[trigger] trees_view(ts)[i] == tree_view(ts[i]),
    decreases ts.len(),
{
    if ts.len() > 0 {
        lemma_trees_view(ts.subrange(0, ts.len() - 1));
    }
}

/// The view of an empty labelled node `Labelled { Empty, Tuple [] }`.
pub open spec fn empty_view() -> LabelledView {
    LabelledView { kind: Kind::Empty, tree: UnlabelledView::Tuple(Seq::empty()) }
}

impl Unlabelled {
    /// Add a label.
    pub fn label(self, kind: Kind) -> (r: Labelled)
        ensures
            r@ == (LabelledView { kind, tree: self@ }),
    {
        Labelled { kind, tree: self }
    }

    /// Add a `Kind::Statement` label.
    pub fn statement(self, kind: Statement) -> (r: Labelled)
        ensures
            r@ == (LabelledView { kind: Kind::Statement(kind), tree: self@ }),
    {
        self.label(Kind::Statement(kind))
    }

    /// Convert into a tree.
    pub fn into_tree(self) -> (r: SerializeTree)
        ensures
            r@ == TreeView::Unlabelled(self@),
    {
        SerializeTree::Unlabelled(self)
    }

    /// A tuple with no children.
    pub fn empty_tuple() -> (r: Unlabelled)
        ensures
            r@ == UnlabelledView::Tuple(Seq::empty()),
    {
        let v: Vec<SerializeTree> = Vec::new();
        proof {
            assert(v@ =~= Seq::<SerializeTree>::empty());
        }
        Unlabelled::Tuple(v)
    }
}

impl Labelled {
    pub fn into_tree(self) -> (r: SerializeTree)
        ensures
            r@ == TreeView::Labelled(self@),
    {
        SerializeTree::Labelled(self)
    }
}

impl SerializeTree {
    /// Wrap this tree as the only child of a tuple with the given label.
    pub fn label(self, kind: Kind) -> (r: Labelled)
        ensures
            r@ == (LabelledView { kind, tree: UnlabelledView::Tuple(seq![self@]) }),
    {
        let v = vec![self];
        proof {
            lemma_trees_view(v@);
            assert(trees_view(v@) =~= seq![self@]);
        }
        Labelled { kind, tree: Unlabelled::Tuple(v) }
    }

    pub fn statement(self, kind: Statement) -> (r: Labelled)
        ensures
            r@ == (LabelledView {
                kind: Kind::Statement(kind),
                tree: UnlabelledView::Tuple(seq![self@]),
            }),
    {
        self.label(Kind::Statement(kind))
    }

    /// The empty node: an empty tuple labelled `Kind::Empty`.
    pub fn empty() -> (r: Self)
        ensures
            r@ == TreeView::Labelled(empty_view()),
    {
        SerializeTree::Labelled(Labelled { kind: Kind::Empty, tree: Unlabelled::empty_tuple() })
    }
}

/// The structure of the tree under a label: a tuple of a fixed arity, or a
/// list whose length is written out.
pub enum Shape {
    Tuple(nat),
    List,
}

/// The structure that each kind of label announces for the tree under it.
pub open spec fn kind_shape(k: Kind) -> Shape {
    match k {
        Kind::Empty => Shape::Tuple(0),
        Kind::Statement(s) => match s {
            Statement::Block => Shape::List,
            Statement::Expression => Shape::Tuple(1),
            Statement::VariableDeclaration => Shape::List,
            Statement::IfThenElse => Shape::Tuple(3),
            Statement::Label => Shape::Tuple(2),
            Statement::Break => Shape::Tuple(1),
            Statement::Cont => Shape::Tuple(1),
            Statement::With => Shape::Tuple(2),
            Statement::Switch => Shape::Tuple(2),
            Statement::Return => Shape::Tuple(1),
            Statement::Throw => Shape::Tuple(1),
            Statement::Try => Shape::Tuple(3),
            Statement::While => Shape::Tuple(2),
            Statement::DoWhile => Shape::Tuple(2),
            Statement::For => Shape::Tuple(4),
            Statement::ForIn => Shape::Tuple(3),
            Statement::ForOf => Shape::Tuple(3),
            Statement::Debugger => Shape::Tuple(1),
        },
        Kind::VarDecl(_) => Shape::Tuple(2),
        Kind::BindingPattern(_) => Shape::List,
    }
}

/// The node has the given structure.
pub open spec fn has_shape(u: UnlabelledView, shape: Shape) -> bool {
    match shape {
        Shape::Tuple(n) => u matches UnlabelledView::Tuple(c) && c.len() == n,
        Shape::List => u is List,
    }
}

/// Every labelled node of the tree has the structure that its kind announces.
pub open spec fn labelled_well_shaped(l: LabelledView) -> bool
    decreases l,
{
    has_shape(l.tree, kind_shape(l.kind)) && unlabelled_well_shaped(l.tree)
}

/// Every labelled node under this node has the structure that its kind announces.
pub open spec fn unlabelled_well_shaped(u: UnlabelledView) -> bool
    decreases u,
{
    match u {
        UnlabelledView::Tuple(c) => trees_well_shaped(c),
        UnlabelledView::List(c) => trees_well_shaped(c),
        _ => true,
    }
}

/// Every labelled node of the tree has the structure that its kind announces.
pub open spec fn tree_well_shaped(t: TreeView) -> bool
    decreases t,
{
    match t {
        TreeView::Labelled(l) => labelled_well_shaped(l),
        TreeView::Unlabelled(u) => unlabelled_well_shaped(u),
    }
}

/// Every tree of the sequence is well shaped.
pub open spec fn trees_well_shaped(ts: Seq<TreeView>) -> bool
    decreases ts,
{
    if ts.len() == 0 {
        true
    } else {
        trees_well_shaped(ts.subrange(0, ts.len() - 1)) && tree_well_shaped(ts[ts.len() - 1])
    }
}

/// `trees_well_shaped` holds exactly when every tree is well shaped.
pub proof fn lemma_trees_well_shaped(ts: Seq<TreeView>)
    ensures
        trees_well_shaped(ts) <==> forall|i: int|
            0 <= i < ts.len() ==> #[trigger] tree_well_shaped(ts[i]),
    decreases ts.len(),
{
    if ts.len() > 0 {
        let init = ts.subrange(0, ts.len() - 1);
        lemma_trees_well_shaped(init);
        assert forall|i: int| 0 <= i < init.len() implies init[i] == ts[i] by {}
        if forall|i: int| 0 <= i < ts.len() ==> #[trigger] tree_well_shaped(ts[i]) {
            assert forall|i: int| 0 <= i < init.len() implies #[trigger] tree_well_shaped(
                init[i],
            ) by {
                assert(tree_well_shaped(ts[i]));
            }
            assert(tree_well_shaped(ts[ts.len() - 1]));
        }
    }
}

} // verus!
