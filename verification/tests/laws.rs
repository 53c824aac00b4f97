use binjs::encode::{Encoder, Error};
use binjs::grammar::{Enum, Field, Interface, Structure, Syntax, Type};
use binjs::js::{CompoundPatt, Dtor, Expr, Id, Patt, Stmt, StmtListItem};
use binjs::json::{JsonObject, JsonValue};
use binjs::kind::{Kind, Statement};
use binjs::tree::{Labelled, SerializeTree, Unlabelled};
use binjs::tree_writer::{LimitReached, TreeTokenWriter};

/// The structure that a kind announces: `Some(n)` for a tuple of arity
/// `n`, `None` for a list.
fn announced(kind: Kind) -> Option<usize> {
    match kind {
        Kind::Empty => Some(0),
        Kind::Statement(s) => match s {
            Statement::Block | Statement::VariableDeclaration => None,
            Statement::Try => Some(3),
            Statement::For => Some(4),
            Statement::Break | Statement::Cont | Statement::Return | Statement::Debugger => Some(1),
            _ => Some(usize::MAX),
        },
        Kind::VarDecl(_) => Some(2),
        Kind::BindingPattern(_) => None,
    }
}

fn check_unlabelled(u: &Unlabelled) {
    match u {
        Unlabelled::Tuple(v) | Unlabelled::List(v) => v.iter().for_each(check_tree),
        _ => {}
    }
}

fn check_tree(t: &SerializeTree) {
    match t {
        SerializeTree::Labelled(l) => check_labelled(l),
        SerializeTree::Unlabelled(u) => check_unlabelled(u),
    }
}

fn check_labelled(l: &Labelled) {
    match (&l.tree, announced(l.kind)) {
        (Unlabelled::Tuple(v), Some(n)) => assert_eq!(v.len(), n, "arity of {:?}", l.kind),
        (Unlabelled::List(_), None) => {}
        _ => panic!("the tree under {:?} does not have the announced structure", l.kind),
    }
    check_unlabelled(&l.tree);
}

fn sample_statements() -> Vec<Stmt> {
    vec![
        Stmt::Empty,
        Stmt::Debugger,
        Stmt::Break(None),
        Stmt::Cont(None),
        Stmt::Return(None),
        Stmt::Var(vec![]),
        Stmt::Block(vec![]),
        Stmt::Block(vec![StmtListItem::Stmt(Stmt::Empty), StmtListItem::Stmt(Stmt::Block(vec![]))]),
        Stmt::Try(vec![], None, None),
        Stmt::Try(vec![], None, Some(vec![])),
        Stmt::Try(vec![StmtListItem::Stmt(Stmt::Debugger)], None, Some(vec![StmtListItem::Stmt(Stmt::Empty)])),
        Stmt::For(None, None, None, Box::new(Stmt::Empty)),
        Stmt::For(None, None, None, Box::new(Stmt::Return(None))),
    ]
}

#[test]
fn kinds_announce_the_structure_of_their_trees() {
    for s in sample_statements() {
        check_labelled(&s.to_labelled());
    }
    let p = CompoundPatt::Arr(vec![None, Some(Patt::Compound(CompoundPatt::Obj(vec![])))]);
    check_labelled(&p.to_labelled());
}

#[test]
fn distinct_statements_have_distinct_trees() {
    let trees: Vec<String> =
        sample_statements().iter().map(|s| format!("{:?}", render(&s.to_labelled()))).collect();
    for i in 0..trees.len() {
        for j in 0..trees.len() {
            if i != j {
                assert_ne!(trees[i], trees[j], "statements {} and {}", i, j);
            }
        }
    }
}

fn render(l: &Labelled) -> String {
    format!("{:?}({})", l.kind, render_u(&l.tree))
}

fn render_u(u: &Unlabelled) -> String {
    match u {
        Unlabelled::Atom(s) => format!("atom {}", s),
        Unlabelled::RawByte(b) => format!("byte {}", b),
        Unlabelled::Tuple(v) => format!("tuple[{}]", v.iter().map(render_t).collect::<Vec<_>>().join(",")),
        Unlabelled::List(v) => format!("list[{}]", v.iter().map(render_t).collect::<Vec<_>>().join(",")),
    }
}

fn render_t(t: &SerializeTree) -> String {
    match t {
        SerializeTree::Labelled(l) => render(l),
        SerializeTree::Unlabelled(u) => render_u(u),
    }
}

#[test]
fn serializable_exactly_when_no_unconverted_node() {
    for s in sample_statements() {
        assert!(s.is_serializable());
    }
    assert!(!Stmt::Expr(Expr).is_serializable());
    assert!(!Stmt::Break(Some(Id)).is_serializable());
    assert!(!Stmt::Var(vec![Dtor::Simple(Id, None)]).is_serializable());
    assert!(!Stmt::Block(vec![StmtListItem::Stmt(Stmt::Return(Some(Expr)))]).is_serializable());
    assert!(!Stmt::For(None, Some(Expr), None, Box::new(Stmt::Empty)).is_serializable());
    assert!(!Patt::Simple(Id).is_serializable());
    assert!(Patt::Compound(CompoundPatt::Arr(vec![None])).is_serializable());
    assert!(!CompoundPatt::Arr(vec![Some(Patt::Simple(Id))]).is_serializable());
}

fn grammar() -> Syntax {
    Syntax {
        interfaces: vec![Interface {
            name: "Point".to_string(),
            ancestors: vec![],
            contents: Structure {
                fields: vec![
                    Field { name: "x".to_string(), type_: Type::Number },
                    Field { name: "tag".to_string(), type_: Type::Enum("Tag".to_string()) },
                ],
            },
        }],
        enums: vec![Enum { name: "Tag".to_string(), strings: vec!["a".to_string()] }],
    }
}

fn point(x: JsonValue, tag: &str) -> JsonValue {
    JsonValue::Object(JsonObject {
        entries: vec![
            ("type".to_string(), JsonValue::String("Point".to_string())),
            ("x".to_string(), x),
            ("tag".to_string(), JsonValue::String(tag.to_string())),
        ],
    })
}

#[test]
fn unlimited_writer_succeeds_exactly_on_conforming_values() {
    let g = grammar();
    let ty = Type::Array(Box::new(Type::Interfaces { names: vec!["Point".to_string()], or_null: false }));
    let conforming = JsonValue::Array(vec![point(JsonValue::Number(0), "a"), point(JsonValue::Number(1), "a")]);
    let not_conforming = JsonValue::Array(vec![point(JsonValue::Number(0), "a"), point(JsonValue::Bool(true), "a")]);
    let mut encoder = Encoder::new(&g, TreeTokenWriter::new());
    assert!(encoder.encode(&conforming, &ty).is_ok());
    match encoder.encode(&not_conforming, &ty) {
        Err(Error::Mismatch { expected, got }) => {
            assert_eq!(expected, "Number");
            assert_eq!(got, "Bool");
        }
        other => panic!("unexpected result {:?}", other.map(|_| ())),
    }
    assert_eq!(encoder.done().remaining(), None);
}

#[test]
fn on_conforming_values_only_the_writer_fails() {
    let g = grammar();
    let ty = Type::Interfaces { names: vec!["Point".to_string()], or_null: false };
    let v = point(JsonValue::Number(7), "a");
    for limit in 0..3 {
        let mut encoder = Encoder::new(&g, TreeTokenWriter::with_limit(limit));
        match encoder.encode(&v, &ty) {
            Err(Error::TokenWriterError(LimitReached)) => {}
            other => panic!("limit {}: unexpected result {:?}", limit, other.map(|_| ())),
        }
    }
    let mut encoder = Encoder::new(&g, TreeTokenWriter::with_limit(3));
    assert!(encoder.encode(&v, &ty).is_ok());
}

fn structure_object(members: Vec<(&str, JsonValue)>) -> JsonValue {
    JsonValue::Object(JsonObject { entries: members.into_iter().map(|(k, v)| (k.to_string(), v)).collect() })
}

#[test]
fn extra_members_do_not_change_the_encoding() {
    let g = grammar();
    let ty = Type::Obj(Structure {
        fields: vec![
            Field { name: "x".to_string(), type_: Type::Number },
            Field { name: "flag".to_string(), type_: Type::Boolean },
        ],
    });
    let plain = structure_object(vec![("x", JsonValue::Number(3)), ("flag", JsonValue::Bool(true))]);
    let extended = structure_object(vec![
        ("note", JsonValue::Null),
        ("x", JsonValue::Number(3)),
        ("other", JsonValue::Array(vec![])),
        ("flag", JsonValue::Bool(true)),
    ]);
    let mut a = Encoder::new(&g, TreeTokenWriter::with_limit(10));
    let mut b = Encoder::new(&g, TreeTokenWriter::with_limit(10));
    let ra = a.encode(&plain, &ty).unwrap();
    let rb = b.encode(&extended, &ty).unwrap();
    assert_eq!(ra, rb);
    assert_eq!(a.done().remaining(), b.done().remaining());
}

#[test]
fn lookup_in_well_formed_object_ignores_member_order() {
    let one = JsonObject {
        entries: vec![("a".to_string(), JsonValue::Bool(true)), ("b".to_string(), JsonValue::Number(1))],
    };
    let two = JsonObject {
        entries: vec![("b".to_string(), JsonValue::Number(1)), ("a".to_string(), JsonValue::Bool(true))],
    };
    for key in ["a", "b", "c"] {
        let k = key.to_string();
        assert_eq!(format!("{:?}", one.get(&k).map(|_| ())), format!("{:?}", two.get(&k).map(|_| ())));
    }
    assert!(matches!(one.get(&"a".to_string()), Some(JsonValue::Bool(true))));
    assert!(matches!(two.get(&"a".to_string()), Some(JsonValue::Bool(true))));
    assert!(matches!(one.get(&"b".to_string()), Some(JsonValue::Number(1))));
    assert!(matches!(two.get(&"b".to_string()), Some(JsonValue::Number(1))));
}
