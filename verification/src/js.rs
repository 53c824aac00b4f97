//! The part of an ECMAScript syntax tree (in the shape of the `easter` crate)
//! that the serializer reads.
//!
//! Source locations and semicolon tokens are left out: nothing in the
//! serializer reads them. Nodes for which no conversion into the
//! serialization tree is defined yet (expressions, identifiers, function
//! declarations, `case` and `catch` clauses, loop heads and object pattern
//! properties) are kept as markers that carry none of their contents: the
//! serializer only notes where they occur.
use vstd::prelude::*;

verus! {

/// An expression (no conversion defined).
pub struct Expr;

/// An identifier (no conversion defined).
pub struct Id;

/// A function declaration (no conversion defined).
pub struct Fun;

/// A `case` clause of a `switch` (no conversion defined).
pub struct Case;

/// A `catch` clause (no conversion defined).
pub struct Catch;

/// The head of a `for (..;..;..)` loop (no conversion defined).
pub struct ForHead;

/// The head of a `for .. in` loop (no conversion defined).
pub struct ForInHead;

/// The head of a `for .. of` loop (no conversion defined).
pub struct ForOfHead;

/// A property of an object pattern (no conversion defined).
pub struct PropPatt;

pub enum Decl {
    Fun(Fun),
}

pub enum StmtListItem {
    Decl(Decl),
    Stmt(Stmt),
}

pub enum Dtor {
    Simple(Id, Option<Expr>),
    Compound(CompoundPatt, Expr),
}

pub enum CompoundPatt {
    Arr(Vec<Option<Patt>>),
    Obj(Vec<PropPatt>),
}

pub enum Patt {
    Simple(Id),
    Compound(CompoundPatt),
}

pub enum Stmt {
    Empty,
    Block(Vec<StmtListItem>),
    Var(Vec<Dtor>),
    Expr(Expr),
    If(Expr, Box<Stmt>, Option<Box<Stmt>>),
    Label(Id, Box<Stmt>),
    Break(Option<Id>),
    Cont(Option<Id>),
    With(Expr, Box<Stmt>),
    Switch(Expr, Vec<Case>),
    Return(Option<Expr>),
    Throw(Expr),
    Try(Vec<StmtListItem>, Option<Box<Catch>>, Option<Vec<StmtListItem>>),
    While(Expr, Box<Stmt>),
    DoWhile(Box<Stmt>, Expr),
    For(Option<Box<ForHead>>, Option<Expr>, Option<Expr>, Box<Stmt>),
    ForIn(Box<ForInHead>, Expr, Box<Stmt>),
    ForOf(Box<ForOfHead>, Expr, Box<Stmt>),
    Debugger,
}

/// Mathematical view of a `Stmt`: lists are taken as sequences.
pub enum StmtView {
    Empty,
    Block(Seq<ItemView>),
    Var(Seq<DtorView>),
    Expr(Expr),
    If(Expr, Box<StmtView>, Option<Box<StmtView>>),
    Label(Id, Box<StmtView>),
    Break(Option<Id>),
    Cont(Option<Id>),
    With(Expr, Box<StmtView>),
    Switch(Expr, Seq<Case>),
    Return(Option<Expr>),
    Throw(Expr),
    Try(Seq<ItemView>, Option<Catch>, Option<Seq<ItemView>>),
    While(Expr, Box<StmtView>),
    DoWhile(Box<StmtView>, Expr),
    For(Option<ForHead>, Option<Expr>, Option<Expr>, Box<StmtView>),
    ForIn(ForInHead, Expr, Box<StmtView>),
    ForOf(ForOfHead, Expr, Box<StmtView>),
    Debugger,
}

/// Mathematical view of a `StmtListItem`.
pub enum ItemView {
    Decl(Decl),
    Stmt(StmtView),
}

/// Mathematical view of a `Dtor`.
pub enum DtorView {
    Simple(Id, Option<Expr>),
    Compound(CompoundPattView, Expr),
}

/// Mathematical view of a `CompoundPatt`.
pub enum CompoundPattView {
    Arr(Seq<Option<PattView>>),
    Obj(Seq<PropPatt>),
}

/// Mathematical view of a `Patt`.
pub enum PattView {
    Simple(Id),
    Compound(CompoundPattView),
}

pub open spec fn stmt_model(s: Stmt) -> StmtView
    decreases s,
{
    match s {
        Stmt::Empty => StmtView::Empty,
        Stmt::Block(items) => StmtView::Block(items_model(items@)),
        Stmt::Var(dtors) => StmtView::Var(dtors_model(dtors@)),
        Stmt::Expr(e) => StmtView::Expr(e),
        Stmt::If(e, t, f) => StmtView::If(
            e,
            Box::new(stmt_model(*t)),
            match f {
                Some(f) => Some(Box::new(stmt_model(*f))),
                None => None,
            },
        ),
        Stmt::Label(id, body) => StmtView::Label(id, Box::new(stmt_model(*body))),
        Stmt::Break(id) => StmtView::Break(id),
        Stmt::Cont(id) => StmtView::Cont(id),
        Stmt::With(e, body) => StmtView::With(e, Box::new(stmt_model(*body))),
        Stmt::Switch(e, cases) => StmtView::Switch(e, cases@),
        Stmt::Return(e) => StmtView::Return(e),
        Stmt::Throw(e) => StmtView::Throw(e),
        Stmt::Try(body, catch, fin) => StmtView::Try(
            items_model(body@),
            match catch {
                Some(c) => Some(*c),
                None => None,
            },
            match fin {
                Some(f) => Some(items_model(f@)),
                None => None,
            },
        ),
        Stmt::While(e, body) => StmtView::While(e, Box::new(stmt_model(*body))),
        Stmt::DoWhile(body, e) => StmtView::DoWhile(Box::new(stmt_model(*body)), e),
        Stmt::For(head, cond, incr, body) => StmtView::For(
            match head {
                Some(h) => Some(*h),
                None => None,
            },
            cond,
            incr,
            Box::new(stmt_model(*body)),
        ),
        Stmt::ForIn(head, e, body) => StmtView::ForIn(*head, e, Box::new(stmt_model(*body))),
        Stmt::ForOf(head, e, body) => StmtView::ForOf(*head, e, Box::new(stmt_model(*body))),
        Stmt::Debugger => StmtView::Debugger,
    }
}

pub open spec fn item_model(i: StmtListItem) -> ItemView
    decreases i,
{
    match i {
        StmtListItem::Decl(d) => ItemView::Decl(d),
        StmtListItem::Stmt(s) => ItemView::Stmt(stmt_model(s)),
    }
}

pub open spec fn items_model(items: Seq<StmtListItem>) -> Seq<ItemView>
    decreases items,
{
    if items.len() == 0 {
        Seq::empty()
    } else {
        items_model(items.subrange(0, items.len() - 1)).push(item_model(items[items.len() - 1]))
    }
}

pub open spec fn dtor_model(d: Dtor) -> DtorView
    decreases d,
{
    match d {
        Dtor::Simple(id, e) => DtorView::Simple(id, e),
        Dtor::Compound(c, e) => DtorView::Compound(compound_model(c), e),
    }
}

pub open spec fn dtors_model(dtors: Seq<Dtor>) -> Seq<DtorView>
    decreases dtors,
{
    if dtors.len() == 0 {
        Seq::empty()
    } else {
        dtors_model(dtors.subrange(0, dtors.len() - 1)).push(dtor_model(dtors[dtors.len() - 1]))
    }
}

pub open spec fn compound_model(c: CompoundPatt) -> CompoundPattView
    decreases c,
{
    match c {
        CompoundPatt::Arr(elems) => CompoundPattView::Arr(elems_model(elems@)),
        CompoundPatt::Obj(props) => CompoundPattView::Obj(props@),
    }
}

pub open spec fn patt_model(p: Patt) -> PattView
    decreases p,
{
    match p {
        Patt::Simple(id) => PattView::Simple(id),
        Patt::Compound(c) => PattView::Compound(compound_model(c)),
    }
}

pub open spec fn elem_model(e: Option<Patt>) -> Option<PattView>
    decreases e,
{
    match e {
        Some(p) => Some(patt_model(p)),
        None => None,
    }
}

pub open spec fn elems_model(elems: Seq<Option<Patt>>) -> Seq<Option<PattView>>
    decreases elems,
{
    if elems.len() == 0 {
        Seq::empty()
    } else {
        elems_model(elems.subrange(0, elems.len() - 1)).push(elem_model(elems[elems.len() - 1]))
    }
}

impl View for Stmt {
    type V = StmtView;

    open spec fn view(&self) -> StmtView {
        stmt_model(*self)
    }
}

impl View for CompoundPatt {
    type V = CompoundPattView;

    open spec fn view(&self) -> CompoundPattView {
        compound_model(*self)
    }
}

impl View for Patt {
    type V = PattView;

    open spec fn view(&self) -> PattView {
        patt_model(*self)
    }
}

/// `items_model` takes each item by its view.
pub proof fn lemma_items_model(items: Seq<StmtListItem>)
    ensures
        items_model(items).len() == items.len(),
        forall|i: int|
            0 <= i < items.len() ==> #[trigger] items_model(items)[i] == item_model(items[i]),
    decreases items.len(),
{
    if items.len() > 0 {
        let init = items.subrange(0, items.len() - 1);
        lemma_items_model(init);
        assert forall|i: int| 0 <= i < init.len() implies init[i] == items[i] by {}
    }
}

/// `elems_model` takes each element by its view.
pub proof fn lemma_elems_model(elems: Seq<Option<Patt>>)
    ensures
        elems_model(elems).len() == elems.len(),
        forall|i: int|
            0 <= i < elems.len() ==> #[trigger] elems_model(elems)[i] == elem_model(elems[i]),
    decreases elems.len(),
{
    if elems.len() > 0 {
        let init = elems.subrange(0, elems.len() - 1);
        lemma_elems_model(init);
        assert forall|i: int| 0 <= i < init.len() implies init[i] == elems[i] by {}
    }
}

} // verus!
