//! Conversion of statements and binding patterns into labelled
//! serialization trees.
use vstd::prelude::*;

use crate::js::{
    compound_model, elems_model, items_model, lemma_elems_model, lemma_items_model, CompoundPatt,
    Patt, Stmt, StmtListItem,
};
use crate::kind::{BindingPattern, Kind, Statement};
use crate::tree::{
    labelled_well_shaped, lemma_trees_well_shaped, tree_well_shaped, trees_well_shaped,
    empty_view, lemma_trees_view, trees_view, tree_view, Labelled, LabelledView, SerializeTree,
    TreeView, Unlabelled, UnlabelledView,
};

verus! {

// ---------------------------------------------------------------------------
// Which inputs convert.
//
// A node converts when it holds no node for which no conversion is defined
// (an expression, an identifier, a function declaration, a `case` or `catch`
// clause, a loop head, a variable declarator or an object pattern property).
// ---------------------------------------------------------------------------

/// The statement converts into a labelled tree.
pub open spec fn stmt_serializable(s: Stmt) -> bool
    decreases s,
{
    match s {
        Stmt::Empty => true,
        Stmt::Block(items) => items_serializable(items@),
        Stmt::Var(dtors) => dtors@.len() == 0,
        Stmt::Break(id) => id is None,
        Stmt::Cont(id) => id is None,
        Stmt::Return(e) => e is None,
        Stmt::Try(body, catch, fin) => {
            &&& items_serializable(body@)
            &&& catch is None
            &&& match fin {
                Some(f) => items_serializable(f@),
                None => true,
            }
        },
        Stmt::For(head, cond, incr, body) => {
            &&& head is None
            &&& cond is None
            &&& incr is None
            &&& stmt_serializable(*body)
        },
        Stmt::Debugger => true,
        _ => false,
    }
}

/// The statement list item converts into a labelled tree.
pub open spec fn item_serializable(i: StmtListItem) -> bool
    decreases i,
{
    match i {
        StmtListItem::Decl(_) => false,
        StmtListItem::Stmt(s) => stmt_serializable(s),
    }
}

/// Every item of the sequence converts.
pub open spec fn items_serializable(items: Seq<StmtListItem>) -> bool
    decreases items,
{
    if items.len() == 0 {
        true
    } else {
        items_serializable(items.subrange(0, items.len() - 1)) && item_serializable(
            items[items.len() - 1],
        )
    }
}

// ---------------------------------------------------------------------------
// What they convert into.
// ---------------------------------------------------------------------------

/// The labelled tree of a statement (meaningful where `stmt_serializable`).
pub open spec fn stmt_view(s: Stmt) -> LabelledView
    decreases s,
{
    match s {
        Stmt::Empty => empty_view(),
        Stmt::Block(items) => statement_view(
            Statement::Block,
            UnlabelledView::List(items_views(items@)),
        ),
        Stmt::Var(_) => statement_view(
            Statement::VariableDeclaration,
            UnlabelledView::List(Seq::empty()),
        ),
        Stmt::Break(_) => statement_view(
            Statement::Break,
            UnlabelledView::Tuple(seq![TreeView::Labelled(empty_view())]),
        ),
        Stmt::Cont(_) => statement_view(
            Statement::Cont,
            UnlabelledView::Tuple(seq![TreeView::Labelled(empty_view())]),
        ),
        Stmt::Return(_) => statement_view(
            Statement::Return,
            UnlabelledView::Tuple(seq![TreeView::Labelled(empty_view())]),
        ),
        Stmt::Try(body, _, fin) => statement_view(
            Statement::Try,
            UnlabelledView::Tuple(
                seq![
                    TreeView::Unlabelled(UnlabelledView::List(items_views(body@))),
                    TreeView::Unlabelled(UnlabelledView::Tuple(Seq::empty())),
                    finalizer_view(fin),
                ],
            ),
        ),
        Stmt::For(_, _, _, body) => statement_view(
            Statement::For,
            UnlabelledView::Tuple(
                seq![
                    TreeView::Labelled(empty_view()),
                    TreeView::Labelled(empty_view()),
                    TreeView::Labelled(empty_view()),
                    TreeView::Labelled(stmt_view(*body)),
                ],
            ),
        ),
        Stmt::Debugger => statement_view(
            Statement::Debugger,
            UnlabelledView::Tuple(seq![TreeView::Labelled(empty_view())]),
        ),
        _ => empty_view(),
    }
}

/// The tree of the `finally` block of a `try` statement: the empty node
/// when there is none.
pub open spec fn finalizer_view(fin: Option<Vec<StmtListItem>>) -> TreeView
    decreases fin,
{
    match fin {
        Some(f) => TreeView::Unlabelled(UnlabelledView::List(items_views(f@))),
        None => TreeView::Labelled(empty_view()),
    }
}

/// A node labelled with a statement kind.
pub open spec fn statement_view(kind: Statement, tree: UnlabelledView) -> LabelledView {
    LabelledView { kind: Kind::Statement(kind), tree }
}

/// The labelled tree of a statement list item (meaningful where `item_serializable`).
pub open spec fn item_view(i: StmtListItem) -> LabelledView
    decreases i,
{
    match i {
        StmtListItem::Decl(_) => empty_view(),
        StmtListItem::Stmt(s) => stmt_view(s),
    }
}

/// The labelled trees of a sequence of statement list items.
pub open spec fn items_views(items: Seq<StmtListItem>) -> Seq<TreeView>
    decreases items,
{
    if items.len() == 0 {
        Seq::empty()
    } else {
        items_views(items.subrange(0, items.len() - 1)).push(
            TreeView::Labelled(item_view(items[items.len() - 1])),
        )
    }
}

/// `items_serializable` and `items_views` work element by element.
pub proof fn lemma_items(items: Seq<StmtListItem>)
    ensures
        items_serializable(items) <==> forall|i: int|
            0 <= i < items.len() ==> #[trigger] item_serializable(items[i]),
        items_views(items).len() == items.len(),
        forall|i: int|
            0 <= i < items.len() ==> #[trigger] items_views(items)[i] == TreeView::Labelled(
                item_view(items[i]),
            ),
    decreases items.len(),
{
    if items.len() > 0 {
        let init = items.subrange(0, items.len() - 1);
        lemma_items(init);
        assert forall|i: int| 0 <= i < init.len() implies init[i] == items[i] by {}
        if forall|i: int| 0 <= i < items.len() ==> #[trigger] item_serializable(items[i]) {
            assert forall|i: int| 0 <= i < init.len() implies #[trigger] item_serializable(
                init[i],
            ) by {
                assert(item_serializable(items[i]));
            }
            assert(item_serializable(items[items.len() - 1]));
        }
    }
}

// ---------------------------------------------------------------------------
// Binding patterns.
// ---------------------------------------------------------------------------

/// The pattern converts into a labelled tree.
pub open spec fn patt_serializable(p: Patt) -> bool
    decreases p,
{
    match p {
        Patt::Simple(_) => false,
        Patt::Compound(c) => compound_serializable(c),
    }
}

/// The compound pattern converts into a labelled tree.
pub open spec fn compound_serializable(c: CompoundPatt) -> bool
    decreases c,
{
    match c {
        CompoundPatt::Arr(elems) => elems_serializable(elems@),
        CompoundPatt::Obj(props) => props@.len() == 0,
    }
}

/// The optional pattern converts (a hole always does).
pub open spec fn elem_serializable(e: Option<Patt>) -> bool
    decreases e,
{
    match e {
        None => true,
        Some(p) => patt_serializable(p),
    }
}

/// Every element of an array pattern converts.
pub open spec fn elems_serializable(elems: Seq<Option<Patt>>) -> bool
    decreases elems,
{
    if elems.len() == 0 {
        true
    } else {
        elems_serializable(elems.subrange(0, elems.len() - 1)) && elem_serializable(
            elems[elems.len() - 1],
        )
    }
}

/// The labelled tree of a pattern (meaningful where `patt_serializable`).
pub open spec fn patt_view(p: Patt) -> LabelledView
    decreases p,
{
    match p {
        Patt::Simple(_) => empty_view(),
        Patt::Compound(c) => compound_view(c),
    }
}

/// The labelled tree of a compound pattern (meaningful where `compound_serializable`).
pub open spec fn compound_view(c: CompoundPatt) -> LabelledView
    decreases c,
{
    match c {
        CompoundPatt::Arr(elems) => LabelledView {
            kind: Kind::BindingPattern(BindingPattern::Array),
            tree: UnlabelledView::List(elems_views(elems@)),
        },
        CompoundPatt::Obj(_) => LabelledView {
            kind: Kind::BindingPattern(BindingPattern::Object),
            tree: UnlabelledView::List(Seq::empty()),
        },
    }
}

/// The labelled tree of an array pattern element: a hole is the empty node.
pub open spec fn elem_view(e: Option<Patt>) -> LabelledView
    decreases e,
{
    match e {
        None => empty_view(),
        Some(p) => patt_view(p),
    }
}

/// The labelled trees of the elements of an array pattern.
pub open spec fn elems_views(elems: Seq<Option<Patt>>) -> Seq<TreeView>
    decreases elems,
{
    if elems.len() == 0 {
        Seq::empty()
    } else {
        elems_views(elems.subrange(0, elems.len() - 1)).push(
            TreeView::Labelled(elem_view(elems[elems.len() - 1])),
        )
    }
}

/// `elems_serializable` and `elems_views` work element by element.
pub proof fn lemma_elems(elems: Seq<Option<Patt>>)
    ensures
        elems_serializable(elems) <==> forall|i: int|
            0 <= i < elems.len() ==> #[trigger] elem_serializable(elems[i]),
        elems_views(elems).len() == elems.len(),
        forall|i: int|
            0 <= i < elems.len() ==> #[trigger] elems_views(elems)[i] == TreeView::Labelled(
                elem_view(elems[i]),
            ),
    decreases elems.len(),
{
    if elems.len() > 0 {
        let init = elems.subrange(0, elems.len() - 1);
        lemma_elems(init);
        assert forall|i: int| 0 <= i < init.len() implies init[i] == elems[i] by {}
        if forall|i: int| 0 <= i < elems.len() ==> #[trigger] elem_serializable(elems[i]) {
            assert forall|i: int| 0 <= i < init.len() implies #[trigger] elem_serializable(
                init[i],
            ) by {
                assert(elem_serializable(elems[i]));
            }
            assert(elem_serializable(elems[elems.len() - 1]));
        }
    }
}

// ---------------------------------------------------------------------------
// Executable conversions.
// ---------------------------------------------------------------------------

/// A tuple of the given trees.
fn tuple_of(v: Vec<SerializeTree>) -> (r: Unlabelled)
    ensures
        r@ == UnlabelledView::Tuple(trees_view(v@)),
{
    Unlabelled::Tuple(v)
}

impl Labelled {
    /// The labelled trees of the given statement list items, as a list.
    pub fn list(items: &Vec<StmtListItem>) -> (r: Unlabelled)
        requires
            items_serializable(items@),
        ensures
            r@ == UnlabelledView::List(items_views(items@)),
        decreases items,
    {
        proof {
            lemma_items(items@);
        }
        let mut out: Vec<SerializeTree> = Vec::new();
        let mut i: usize = 0;
        while i < items.len()
            invariant
                i <= items.len(),
                out@.len() == i,
                forall|j: int| 0 <= j < items@.len() ==> #[trigger] item_serializable(items@[j]),
                forall|j: int|
                    0 <= j < i ==> #[trigger] tree_view(out@[j]) == TreeView::Labelled(
                        item_view(items@[j]),
                    ),
            decreases items.len() - i,
        {
            assert(item_serializable(items@[i as int]));
            proof {
                assert(decreases_to!(items => items@[i as int])) by {
                    vstd::std_specs::vec::axiom_vec_index_decreases(*items, i as int);
                }
            }
            let t = items[i].to_labelled().into_tree();
            out.push(t);
            i = i + 1;
        }
        proof {
            lemma_trees_view(out@);
            assert(trees_view(out@) =~= items_views(items@));
        }
        Unlabelled::List(out)
    }

    /// The empty node, which stands for an absent optional child.
    pub fn none() -> (r: Labelled)
        ensures
            r@ == empty_view(),
    {
        Unlabelled::empty_tuple().label(Kind::Empty)
    }

    /// The labelled tree of an optional array pattern element.
    pub fn option(item: &Option<Patt>) -> (r: Labelled)
        requires
            elem_serializable(*item),
        ensures
            r@ == elem_view(*item),
        decreases item,
    {
        match item {
            None => Labelled::none(),
            Some(some) => some.to_labelled(),
        }
    }
}

impl StmtListItem {
    pub fn to_labelled(&self) -> (r: Labelled)
        requires
            item_serializable(*self),
        ensures
            r@ == item_view(*self),
        decreases self,
    {
        match self {
            StmtListItem::Stmt(stmt) => stmt.to_labelled(),
            StmtListItem::Decl(_) => {
                proof {
                    assert(false);
                }
                Labelled::none()
            },
        }
    }
}

impl Stmt {
    /// The labelled serialization tree of this statement.
    pub fn to_labelled(&self) -> (r: Labelled)
        requires
            stmt_serializable(*self),
        ensures
            r@ == stmt_view(*self),
        decreases self,
    {
        match self {
            Stmt::Empty => Unlabelled::empty_tuple().label(Kind::Empty),
            Stmt::Block(items) => Labelled::list(items).statement(Statement::Block),
            Stmt::Var(_) => {
                // A declarator holds an identifier or an expression: only the
                // empty declaration list converts.
                let v: Vec<SerializeTree> = Vec::new();
                proof {
                    assert(trees_view(v@) =~= Seq::<TreeView>::empty());
                }
                Unlabelled::List(v).statement(Statement::VariableDeclaration)
            },
            Stmt::Break(_) => Labelled::none().into_tree().statement(Statement::Break),
            Stmt::Cont(_) => Labelled::none().into_tree().statement(Statement::Cont),
            Stmt::Return(_) => Labelled::none().into_tree().statement(Statement::Return),
            Stmt::Try(list, _, finalizer) => {
                let body = Labelled::list(list).into_tree();
                let catch = Unlabelled::empty_tuple().into_tree();
                let fin = match finalizer {
                    Some(f) => Labelled::list(f).into_tree(),
                    None => SerializeTree::empty(),
                };
                assert(fin@ == finalizer_view(*finalizer));
                let ghost expected = seq![body@, catch@, fin@];
                let v = vec![body, catch, fin];
                proof {
                    lemma_trees_view(v@);
                    assert(trees_view(v@) =~= expected);
                }
                tuple_of(v).statement(Statement::Try)
            },
            Stmt::For(_, _, _, body) => {
                let head = Labelled::none().into_tree();
                let cond = Labelled::none().into_tree();
                let incr = Labelled::none().into_tree();
                let stmt = body.to_labelled().into_tree();
                let ghost expected = seq![head@, cond@, incr@, stmt@];
                let v = vec![head, cond, incr, stmt];
                proof {
                    lemma_trees_view(v@);
                    assert(trees_view(v@) =~= expected);
                }
                tuple_of(v).statement(Statement::For)
            },
            Stmt::Debugger => SerializeTree::empty().statement(Statement::Debugger),
            _ => {
                proof {
                    assert(false);
                }
                Labelled::none()
            },
        }
    }
}

impl CompoundPatt {
    /// The labelled serialization tree of this compound pattern.
    pub fn to_labelled(&self) -> (r: Labelled)
        requires
            compound_serializable(*self),
        ensures
            r@ == compound_view(*self),
        decreases self,
    {
        match self {
            CompoundPatt::Arr(patterns) => {
                proof {
                    lemma_elems(patterns@);
                }
                let mut out: Vec<SerializeTree> = Vec::new();
                let mut i: usize = 0;
                while i < patterns.len()
                    invariant
                        i <= patterns.len(),
                        out@.len() == i,
                        *self == CompoundPatt::Arr(*patterns),
                        forall|j: int|
                            0 <= j < patterns@.len() ==> #[trigger] elem_serializable(
                                patterns@[j],
                            ),
                        forall|j: int|
                            0 <= j < i ==> #[trigger] tree_view(out@[j]) == TreeView::Labelled(
                                elem_view(patterns@[j]),
                            ),
                    decreases patterns.len() - i,
                {
                    assert(elem_serializable(patterns@[i as int]));
                    proof {
                        let ghost c = *self;
                        assert(decreases_to!(c => c->Arr_0));
                        vstd::std_specs::vec::axiom_vec_index_decreases(*patterns, i as int);
                    }
                    let t = SerializeTree::Labelled(Labelled::option(&patterns[i]));
                    out.push(t);
                    i = i + 1;
                }
                proof {
                    lemma_trees_view(out@);
                    assert(trees_view(out@) =~= elems_views(patterns@));
                }
                Unlabelled::List(out).label(Kind::BindingPattern(BindingPattern::Array))
            },
            CompoundPatt::Obj(_) => {
                // An object pattern property holds a pattern key: only the
                // empty object pattern converts.
                let v: Vec<SerializeTree> = Vec::new();
                proof {
                    assert(trees_view(v@) =~= Seq::<TreeView>::empty());
                }
                Unlabelled::List(v).label(Kind::BindingPattern(BindingPattern::Object))
            },
        }
    }
}

impl Patt {
    /// The labelled serialization tree of this pattern.
    pub fn to_labelled(&self) -> (r: Labelled)
        requires
            patt_serializable(*self),
        ensures
            r@ == patt_view(*self),
        decreases self,
    {
        match self {
            Patt::Compound(compound) => compound.to_labelled(),
            Patt::Simple(_) => {
                proof {
                    assert(false);
                }
                Labelled::none()
            },
        }
    }
}

// ---------------------------------------------------------------------------
// Executable tests of which inputs convert.
// ---------------------------------------------------------------------------

/// Every item of the list converts.
fn items_are_serializable(items: &Vec<StmtListItem>) -> (r: bool)
    ensures
        r == items_serializable(items@),
    decreases items,
{
    proof {
        lemma_items(items@);
    }
    let mut i: usize = 0;
    while i < items.len()
        invariant
            i <= items@.len(),
            forall|j: int| 0 <= j < i ==> #[trigger] item_serializable(items@[j]),
        decreases items.len() - i,
    {
        proof {
            vstd::std_specs::vec::axiom_vec_index_decreases(*items, i as int);
        }
        if !items[i].is_serializable() {
            proof {
                lemma_items(items@);
            }
            return false;
        }
        i = i + 1;
    }
    true
}

impl StmtListItem {
    /// The item converts into a labelled tree.
    pub fn is_serializable(&self) -> (r: bool)
        ensures
            r == item_serializable(*self),
        decreases self,
    {
        match self {
            StmtListItem::Stmt(stmt) => stmt.is_serializable(),
            StmtListItem::Decl(_) => false,
        }
    }
}

impl Stmt {
    /// The statement converts into a labelled tree: it holds no node for
    /// which no conversion is defined.
    pub fn is_serializable(&self) -> (r: bool)
        ensures
            r == stmt_serializable(*self),
        decreases self,
    {
        match self {
            Stmt::Empty => true,
            Stmt::Block(items) => items_are_serializable(items),
            Stmt::Var(dtors) => dtors.len() == 0,
            Stmt::Break(id) => id.is_none(),
            Stmt::Cont(id) => id.is_none(),
            Stmt::Return(expr) => expr.is_none(),
            Stmt::Try(body, catch, finalizer) => {
                items_are_serializable(body) && catch.is_none() && match finalizer {
                    Some(f) => items_are_serializable(f),
                    None => true,
                }
            },
            Stmt::For(head, cond, incr, body) => {
                head.is_none() && cond.is_none() && incr.is_none() && body.is_serializable()
            },
            Stmt::Debugger => true,
            _ => false,
        }
    }
}

impl CompoundPatt {
    /// The pattern converts into a labelled tree.
    pub fn is_serializable(&self) -> (r: bool)
        ensures
            r == compound_serializable(*self),
        decreases self,
    {
        match self {
            CompoundPatt::Arr(elems) => {
                proof {
                    lemma_elems(elems@);
                }
                let mut i: usize = 0;
                while i < elems.len()
                    invariant
                        i <= elems@.len(),
                        *self == CompoundPatt::Arr(*elems),
                        forall|j: int| 0 <= j < i ==> #[trigger] elem_serializable(elems@[j]),
                    decreases elems.len() - i,
                {
                    proof {
                        let ghost c = *self;
                        assert(decreases_to!(c => c->Arr_0));
                        vstd::std_specs::vec::axiom_vec_index_decreases(*elems, i as int);
                    }
                    let ok = match &elems[i] {
                        None => true,
                        Some(p) => p.is_serializable(),
                    };
                    assert(ok == elem_serializable(elems@[i as int]));
                    if !ok {
                        proof {
                            lemma_elems(elems@);
                        }
                        return false;
                    }
                    i = i + 1;
                }
                true
            },
            CompoundPatt::Obj(props) => props.len() == 0,
        }
    }
}

impl Patt {
    /// The pattern converts into a labelled tree.
    pub fn is_serializable(&self) -> (r: bool)
        ensures
            r == patt_serializable(*self),
        decreases self,
    {
        match self {
            Patt::Compound(compound) => compound.is_serializable(),
            Patt::Simple(_) => false,
        }
    }
}

// ---------------------------------------------------------------------------
// The kind of each node determines the structure of the tree under it.
// ---------------------------------------------------------------------------

/// In the tree of a statement that converts, every labelled node has the
/// structure (tuple arity, or list) that its kind announces.
pub proof fn lemma_stmt_well_shaped(s: Stmt)
    requires
        stmt_serializable(s),
    ensures
        labelled_well_shaped(stmt_view(s)),
    decreases s,
{
    match s {
        Stmt::Block(items) => {
            lemma_items_well_shaped(items@);
        },
        Stmt::Var(_) => {
            lemma_trees_well_shaped(Seq::empty());
        },
        Stmt::Break(_) | Stmt::Cont(_) | Stmt::Return(_) | Stmt::Debugger => {
            let c = seq![TreeView::Labelled(empty_view())];
            lemma_trees_well_shaped(Seq::empty());
            lemma_trees_well_shaped(c);
            assert(tree_well_shaped(c[0]));
        },
        Stmt::Empty => {
            lemma_trees_well_shaped(Seq::empty());
        },
        Stmt::Try(body, _, fin) => {
            lemma_items_well_shaped(body@);
            lemma_trees_well_shaped(Seq::empty());
            match fin {
                Some(f) => {
                    lemma_items_well_shaped(f@);
                },
                None => {},
            }
            let c = seq![
                TreeView::Unlabelled(UnlabelledView::List(items_views(body@))),
                TreeView::Unlabelled(UnlabelledView::Tuple(Seq::empty())),
                finalizer_view(fin),
            ];
            lemma_trees_well_shaped(c);
            assert(tree_well_shaped(c[0]));
            assert(tree_well_shaped(c[1]));
            assert(tree_well_shaped(c[2]));
        },
        Stmt::For(_, _, _, body) => {
            lemma_stmt_well_shaped(*body);
            lemma_trees_well_shaped(Seq::empty());
            let c = seq![
                TreeView::Labelled(empty_view()),
                TreeView::Labelled(empty_view()),
                TreeView::Labelled(empty_view()),
                TreeView::Labelled(stmt_view(*body)),
            ];
            lemma_trees_well_shaped(c);
            assert(tree_well_shaped(c[0]));
            assert(tree_well_shaped(c[3]));
        },
        _ => {},
    }
}

/// The trees of statement list items that convert are well shaped.
pub proof fn lemma_items_well_shaped(items: Seq<StmtListItem>)
    requires
        items_serializable(items),
    ensures
        trees_well_shaped(items_views(items)),
    decreases items,
{
    lemma_items(items);
    lemma_trees_well_shaped(items_views(items));
    assert forall|i: int| 0 <= i < items.len() implies #[trigger] tree_well_shaped(
        items_views(items)[i],
    ) by {
        assert(item_serializable(items[i]));
        match items[i] {
            StmtListItem::Stmt(s) => {
                lemma_stmt_well_shaped(s);
            },
            StmtListItem::Decl(_) => {},
        }
    }
}

/// In the tree of a pattern that converts, every labelled node has the
/// structure that its kind announces.
pub proof fn lemma_compound_well_shaped(c: CompoundPatt)
    requires
        compound_serializable(c),
    ensures
        labelled_well_shaped(compound_view(c)),
    decreases c,
{
    match c {
        CompoundPatt::Arr(elems) => {
            lemma_elems(elems@);
            lemma_trees_well_shaped(elems_views(elems@));
            assert forall|i: int| 0 <= i < elems@.len() implies #[trigger] tree_well_shaped(
                elems_views(elems@)[i],
            ) by {
                assert(elem_serializable(elems@[i]));
                match elems@[i] {
                    Some(Patt::Compound(inner)) => {
                        lemma_compound_well_shaped(inner);
                    },
                    None => {
                        lemma_trees_well_shaped(Seq::empty());
                    },
                    _ => {},
                }
            }
        },
        CompoundPatt::Obj(_) => {
            lemma_trees_well_shaped(Seq::empty());
        },
    }
}

// ---------------------------------------------------------------------------
// The tree of a statement determines the statement.
// ---------------------------------------------------------------------------

/// Two statements that convert and have the same labelled tree are the same
/// statement: the serialization loses nothing.
pub proof fn lemma_stmt_view_injective(a: Stmt, b: Stmt)
    requires
        stmt_serializable(a),
        stmt_serializable(b),
        stmt_view(a) == stmt_view(b),
    ensures
        a@ == b@,
    decreases a,
{
    match a {
        Stmt::Block(ia) => match b {
            Stmt::Block(ib) => {
                lemma_items_views_injective(ia@, ib@);
            },
            _ => {},
        },
        Stmt::Var(da) => match b {
            Stmt::Var(db) => {
                assert(da@.len() == 0 && db@.len() == 0);
            },
            _ => {},
        },
        Stmt::Try(ba, _, fa) => match b {
            Stmt::Try(bb, _, fb) => {
                let ta = stmt_view(a).tree;
                let tb = stmt_view(b).tree;
                let ca = ta->Tuple_0;
                let cb = tb->Tuple_0;
                assert(ca[0] == cb[0]);
                assert(ca[2] == cb[2]);
                assert(finalizer_view(fa) == finalizer_view(fb));
                lemma_items_views_injective(ba@, bb@);
                match fa {
                    Some(x) => match fb {
                        Some(y) => {
                            assert(items_views(x@) == items_views(y@));
                            lemma_items_views_injective(x@, y@);
                        },
                        None => {},
                    },
                    None => {},
                }
            },
            _ => {},
        },
        Stmt::For(_, _, _, body_a) => match b {
            Stmt::For(_, _, _, body_b) => {
                let ca = stmt_view(a).tree->Tuple_0;
                let cb = stmt_view(b).tree->Tuple_0;
                assert(ca[3] == cb[3]);
                lemma_stmt_view_injective(*body_a, *body_b);
            },
            _ => {},
        },
        _ => {},
    }
}

/// Two lists of items that convert and have the same trees are the same.
pub proof fn lemma_items_views_injective(a: Seq<StmtListItem>, b: Seq<StmtListItem>)
    requires
        items_serializable(a),
        items_serializable(b),
        items_views(a) == items_views(b),
    ensures
        items_model(a) == items_model(b),
    decreases a,
{
    lemma_items(a);
    lemma_items(b);
    lemma_items_model(a);
    lemma_items_model(b);
    assert(a.len() == b.len());
    assert forall|i: int| 0 <= i < a.len() implies #[trigger] items_model(a)[i] == items_model(
        b,
    )[i] by {
        assert(items_views(a)[i] == items_views(b)[i]);
        assert(items_views(a)[i] == TreeView::Labelled(item_view(a[i])));
        assert(items_views(b)[i] == TreeView::Labelled(item_view(b[i])));
        assert(item_view(a[i]) == item_view(b[i]));
        assert(item_serializable(a[i]));
        assert(item_serializable(b[i]));
        match a[i] {
            StmtListItem::Stmt(sa) => match b[i] {
                StmtListItem::Stmt(sb) => {
                    assert(stmt_view(sa) == stmt_view(sb));
                    lemma_stmt_view_injective(sa, sb);
                },
                _ => {},
            },
            _ => {},
        }
    }
    assert(items_model(a) =~= items_model(b));
}

/// Two compound patterns that convert and have the same labelled tree are
/// the same pattern.
pub proof fn lemma_compound_view_injective(a: CompoundPatt, b: CompoundPatt)
    requires
        compound_serializable(a),
        compound_serializable(b),
        compound_view(a) == compound_view(b),
    ensures
        compound_model(a) == compound_model(b),
    decreases a,
{
    match a {
        CompoundPatt::Arr(ea) => match b {
            CompoundPatt::Arr(eb) => {
                let sa = ea@;
                let sb = eb@;
                lemma_elems(sa);
                lemma_elems(sb);
                lemma_elems_model(sa);
                lemma_elems_model(sb);
                assert(sa.len() == sb.len());
                assert forall|i: int| 0 <= i < sa.len() implies #[trigger] elems_model(sa)[i]
                    == elems_model(sb)[i] by {
                    assert(elems_views(sa)[i] == elems_views(sb)[i]);
                    assert(elems_views(sa)[i] == TreeView::Labelled(elem_view(sa[i])));
                    assert(elems_views(sb)[i] == TreeView::Labelled(elem_view(sb[i])));
                    assert(elem_serializable(sa[i]));
                    assert(elem_serializable(sb[i]));
                    match sa[i] {
                        Some(Patt::Compound(ca)) => match sb[i] {
                            Some(Patt::Compound(cb)) => {
                                lemma_compound_view_injective(ca, cb);
                            },
                            _ => {},
                        },
                        _ => {},
                    }
                }
                assert(elems_model(sa) =~= elems_model(sb));
            },
            _ => {},
        },
        CompoundPatt::Obj(pa) => match b {
            CompoundPatt::Obj(pb) => {
                assert(pa@ =~= pb@);
            },
            _ => {},
        },
    }
}

} // verus!
