use binjs::js::{CompoundPatt, Dtor, Expr, Id, Patt, PropPatt, Stmt, StmtListItem};
use binjs::kind::{BindingPattern, Kind, Statement};
use binjs::tree::{Labelled, SerializeTree, Unlabelled};

/// A plain rendering of a tree, to compare against expected values.
#[derive(Debug, PartialEq)]
enum T {
    Labelled(Kind, Box<U>),
    Unlabelled(Box<U>),
}

#[derive(Debug, PartialEq)]
enum U {
    Atom(String),
    RawByte(u8),
    Tuple(Vec<T>),
    List(Vec<T>),
}

fn render_u(u: &Unlabelled) -> U {
    match u {
        Unlabelled::Atom(s) => U::Atom(s.clone()),
        Unlabelled::RawByte(b) => U::RawByte(*b),
        Unlabelled::Tuple(v) => U::Tuple(v.iter().map(render_t).collect()),
        Unlabelled::List(v) => U::List(v.iter().map(render_t).collect()),
    }
}

fn render_t(t: &SerializeTree) -> T {
    match t {
        SerializeTree::Labelled(l) => render_l(l),
        SerializeTree::Unlabelled(u) => T::Unlabelled(Box::new(render_u(u))),
    }
}

fn render_l(l: &Labelled) -> T {
    T::Labelled(l.kind, Box::new(render_u(&l.tree)))
}

fn empty() -> T {
    T::Labelled(Kind::Empty, Box::new(U::Tuple(vec![])))
}

fn stmt(kind: Statement, tree: U) -> T {
    T::Labelled(Kind::Statement(kind), Box::new(tree))
}

#[test]
fn empty_statement_is_empty_node() {
    assert_eq!(render_l(&Stmt::Empty.to_labelled()), empty());
}

#[test]
fn debugger_wraps_empty_node() {
    assert_eq!(
        render_l(&Stmt::Debugger.to_labelled()),
        stmt(Statement::Debugger, U::Tuple(vec![empty()]))
    );
}

#[test]
fn break_continue_return_without_operand() {
    assert_eq!(
        render_l(&Stmt::Break(None).to_labelled()),
        stmt(Statement::Break, U::Tuple(vec![empty()]))
    );
    assert_eq!(
        render_l(&Stmt::Cont(None).to_labelled()),
        stmt(Statement::Cont, U::Tuple(vec![empty()]))
    );
    assert_eq!(
        render_l(&Stmt::Return(None).to_labelled()),
        stmt(Statement::Return, U::Tuple(vec![empty()]))
    );
}

#[test]
fn block_is_list_of_labelled_items() {
    let block = Stmt::Block(vec![
        StmtListItem::Stmt(Stmt::Empty),
        StmtListItem::Stmt(Stmt::Debugger),
    ]);
    assert_eq!(
        render_l(&block.to_labelled()),
        stmt(
            Statement::Block,
            U::List(vec![empty(), stmt(Statement::Debugger, U::Tuple(vec![empty()]))])
        )
    );
}

#[test]
fn empty_block_is_empty_list() {
    assert_eq!(
        render_l(&Stmt::Block(vec![]).to_labelled()),
        stmt(Statement::Block, U::List(vec![]))
    );
}

#[test]
fn empty_var_declaration_is_empty_list() {
    let decl: Vec<Dtor> = vec![];
    assert_eq!(
        render_l(&Stmt::Var(decl).to_labelled()),
        stmt(Statement::VariableDeclaration, U::List(vec![]))
    );
}

#[test]
fn try_with_finally() {
    let s = Stmt::Try(
        vec![StmtListItem::Stmt(Stmt::Empty)],
        None,
        Some(vec![StmtListItem::Stmt(Stmt::Debugger)]),
    );
    assert_eq!(
        render_l(&s.to_labelled()),
        stmt(
            Statement::Try,
            U::Tuple(vec![
                T::Unlabelled(Box::new(U::List(vec![empty()]))),
                T::Unlabelled(Box::new(U::Tuple(vec![]))),
                T::Unlabelled(Box::new(U::List(vec![stmt(
                    Statement::Debugger,
                    U::Tuple(vec![empty()])
                )]))),
            ])
        )
    );
}

#[test]
fn try_without_finally_has_empty_node() {
    let s = Stmt::Try(vec![], None, None);
    assert_eq!(
        render_l(&s.to_labelled()),
        stmt(
            Statement::Try,
            U::Tuple(vec![
                T::Unlabelled(Box::new(U::List(vec![]))),
                T::Unlabelled(Box::new(U::Tuple(vec![]))),
                empty(),
            ])
        )
    );
}

#[test]
fn try_with_empty_finally_differs_from_none() {
    let with = Stmt::Try(vec![], None, Some(vec![])).to_labelled();
    let without = Stmt::Try(vec![], None, None).to_labelled();
    assert_ne!(render_l(&with), render_l(&without));
}

#[test]
fn for_loop_without_head_condition_update() {
    let s = Stmt::For(None, None, None, Box::new(Stmt::Block(vec![])));
    assert_eq!(
        render_l(&s.to_labelled()),
        stmt(
            Statement::For,
            U::Tuple(vec![
                empty(),
                empty(),
                empty(),
                stmt(Statement::Block, U::List(vec![])),
            ])
        )
    );
}

#[test]
fn nested_statements() {
    let inner = Stmt::For(None, None, None, Box::new(Stmt::Return(None)));
    let s = Stmt::Block(vec![StmtListItem::Stmt(inner)]);
    assert_eq!(
        render_l(&s.to_labelled()),
        stmt(
            Statement::Block,
            U::List(vec![stmt(
                Statement::For,
                U::Tuple(vec![
                    empty(),
                    empty(),
                    empty(),
                    stmt(Statement::Return, U::Tuple(vec![empty()])),
                ])
            )])
        )
    );
}

#[test]
fn array_pattern_with_holes() {
    let p = CompoundPatt::Arr(vec![
        None,
        Some(Patt::Compound(CompoundPatt::Obj(vec![]))),
        Some(Patt::Compound(CompoundPatt::Arr(vec![None]))),
    ]);
    assert_eq!(
        render_l(&p.to_labelled()),
        T::Labelled(
            Kind::BindingPattern(BindingPattern::Array),
            Box::new(U::List(vec![
                empty(),
                T::Labelled(Kind::BindingPattern(BindingPattern::Object), Box::new(U::List(vec![]))),
                T::Labelled(
                    Kind::BindingPattern(BindingPattern::Array),
                    Box::new(U::List(vec![empty()]))
                ),
            ]))
        )
    );
}

#[test]
fn compound_pattern_through_patt() {
    let p = Patt::Compound(CompoundPatt::Obj(vec![]));
    assert_eq!(
        render_l(&p.to_labelled()),
        T::Labelled(Kind::BindingPattern(BindingPattern::Object), Box::new(U::List(vec![])))
    );
}

#[test]
fn tree_helpers() {
    let l = Unlabelled::RawByte(7).statement(Statement::Throw);
    assert_eq!(render_l(&l), stmt(Statement::Throw, U::RawByte(7)));
    let t = Unlabelled::Atom("x".to_string()).into_tree();
    assert_eq!(render_t(&t), T::Unlabelled(Box::new(U::Atom("x".to_string()))));
    let wrapped = SerializeTree::empty().label(Kind::Empty);
    assert_eq!(render_l(&wrapped), T::Labelled(Kind::Empty, Box::new(U::Tuple(vec![empty()]))));
    assert_eq!(render_l(&Labelled::none()), empty());
}

#[test]
fn unconverted_nodes_are_markers() {
    // Nodes without a conversion carry nothing; they can still be built.
    let _ = Stmt::Expr(Expr);
    let _ = Patt::Simple(Id);
    let _ = CompoundPatt::Obj(vec![PropPatt]);
}
