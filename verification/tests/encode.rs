use binjs::encode::{Encoder, Error};
use binjs::grammar::{Enum, Field, Interface, Structure, Syntax, Type};
use binjs::json::{type_of, JsonObject, JsonValue};
use binjs::tree_writer::{LimitReached, TokenTree, TreeTokenWriter};

type Tok = TokenTree;

fn s(x: &str) -> String {
    x.to_string()
}

fn field(name: &str, type_: Type) -> Field {
    Field { name: s(name), type_ }
}

fn obj(members: Vec<(&str, JsonValue)>) -> JsonValue {
    JsonValue::Object(JsonObject { entries: members.into_iter().map(|(k, v)| (s(k), v)).collect() })
}

fn jstr(x: &str) -> JsonValue {
    JsonValue::String(s(x))
}

fn num(x: f64) -> JsonValue {
    JsonValue::Number(x.to_bits())
}

fn float(x: f64) -> Tok {
    Tok::Float(x.to_bits())
}

fn string(x: &str) -> Tok {
    Tok::String(Some(s(x)))
}

/// A small grammar: `Node` refines `Base`; `Leaf` refines nothing; `Color`
/// is an enumeration.
fn grammar() -> Syntax {
    Syntax {
        interfaces: vec![
            Interface {
                name: s("Node"),
                ancestors: vec![s("Base")],
                contents: Structure {
                    fields: vec![field("color", Type::Enum(s("Color"))), field("size", Type::Number)],
                },
            },
            Interface { name: s("Leaf"), ancestors: vec![], contents: Structure { fields: vec![] } },
        ],
        enums: vec![Enum { name: s("Color"), strings: vec![s("red"), s("green")] }],
    }
}

fn interfaces(names: &[&str], or_null: bool) -> Type {
    Type::Interfaces { names: names.iter().map(|n| s(n)).collect(), or_null }
}

fn encode(g: &Syntax, value: &JsonValue, kind: &Type) -> Result<Tok, Error<LimitReached>> {
    let mut encoder = Encoder::new(g, TreeTokenWriter::new());
    encoder.encode(value, kind)
}

fn mismatch(expected: &str, got: &str) -> Error<LimitReached> {
    Error::Mismatch { expected: s(expected), got: s(got) }
}

fn assert_err(r: Result<Tok, Error<LimitReached>>, expected: Error<LimitReached>) {
    match r {
        Err(e) => assert_eq!(format!("{:?}", e), format!("{:?}", expected)),
        Ok(t) => panic!("expected an error, got {:?}", t),
    }
}

#[test]
fn encodes_scalars() {
    let g = grammar();
    assert_eq!(encode(&g, &JsonValue::Bool(true), &Type::Boolean).unwrap(), Tok::Bool(true));
    assert_eq!(encode(&g, &jstr("hi"), &Type::String).unwrap(), string("hi"));
    assert_eq!(encode(&g, &num(1.5), &Type::Number).unwrap(), float(1.5));
}

#[test]
fn scalar_mismatches() {
    let g = grammar();
    assert_err(encode(&g, &jstr("x"), &Type::Boolean), mismatch("bool", "String"));
    assert_err(encode(&g, &JsonValue::Null, &Type::String), mismatch("String", "Null"));
    assert_err(encode(&g, &JsonValue::Bool(false), &Type::Number), mismatch("Number", "Bool"));
    assert_err(encode(&g, &num(2.0), &Type::Array(Box::new(Type::Number))), mismatch("Array", "Number"));
    assert_err(
        encode(&g, &JsonValue::Array(vec![]), &Type::Obj(Structure { fields: vec![] })),
        mismatch("Object", "Array"),
    );
}

#[test]
fn encodes_array_in_order() {
    let g = grammar();
    let v = JsonValue::Array(vec![num(1.0), num(2.0), num(3.0)]);
    assert_eq!(
        encode(&g, &v, &Type::Array(Box::new(Type::Number))).unwrap(),
        Tok::List(vec![float(1.0), float(2.0), float(3.0)])
    );
}

#[test]
fn empty_array_is_empty_list() {
    let g = grammar();
    assert_eq!(
        encode(&g, &JsonValue::Array(vec![]), &Type::Array(Box::new(Type::Boolean))).unwrap(),
        Tok::List(vec![])
    );
}

#[test]
fn array_item_error_stops_encoding() {
    let g = grammar();
    let v = JsonValue::Array(vec![num(1.0), jstr("no"), num(3.0)]);
    let mut encoder = Encoder::new(&g, TreeTokenWriter::with_limit(10));
    assert_err(encoder.encode(&v, &Type::Array(Box::new(Type::Number))), mismatch("Number", "String"));
    // Only the first item reached the writer.
    assert_eq!(encoder.done().remaining(), Some(9));
}

#[test]
fn encodes_anonymous_structure_in_field_order() {
    let g = grammar();
    let ty = Type::Obj(Structure { fields: vec![field("b", Type::Boolean), field("a", Type::String)] });
    let v = obj(vec![("a", jstr("x")), ("b", JsonValue::Bool(false)), ("extra", JsonValue::Null)]);
    assert_eq!(encode(&g, &v, &ty).unwrap(), Tok::Tuple(vec![Tok::Bool(false), string("x")]));
}

#[test]
fn structure_missing_field() {
    let g = grammar();
    let ty = Type::Obj(Structure { fields: vec![field("a", Type::String)] });
    assert_err(encode(&g, &obj(vec![("b", jstr("x"))]), &ty), Error::MissingField(s("a")));
}

#[test]
fn first_member_with_a_key_is_used() {
    let g = grammar();
    let ty = Type::Obj(Structure { fields: vec![field("a", Type::String)] });
    let v = obj(vec![("a", jstr("first")), ("a", jstr("second"))]);
    assert_eq!(encode(&g, &v, &ty).unwrap(), Tok::Tuple(vec![string("first")]));
}

#[test]
fn encodes_enum_literal() {
    let g = grammar();
    assert_eq!(encode(&g, &jstr("green"), &Type::Enum(s("Color"))).unwrap(), string("green"));
}

#[test]
fn enum_errors() {
    let g = grammar();
    assert_err(encode(&g, &jstr("red"), &Type::Enum(s("Shade"))), Error::NoSuchEnum(s("Shade")));
    assert_err(encode(&g, &num(1.0), &Type::Enum(s("Color"))), mismatch("String", "Number"));
    assert_err(
        encode(&g, &jstr("blue"), &Type::Enum(s("Color"))),
        Error::NoSuchLiteral { strings: vec![s("red"), s("green")] },
    );
}

#[test]
fn encodes_interface_with_tag_and_fields() {
    let g = grammar();
    let v = obj(vec![("type", jstr("Node")), ("size", num(4.0)), ("color", jstr("red"))]);
    assert_eq!(
        encode(&g, &v, &interfaces(&["Base"], false)).unwrap(),
        Tok::Tagged { tag: s("Node"), children: vec![(s("color"), string("red")), (s("size"), float(4.0))] }
    );
    // The interface itself is accepted too.
    assert!(encode(&g, &v, &interfaces(&["Node"], false)).is_ok());
}

#[test]
fn null_interface() {
    let g = grammar();
    assert_eq!(
        encode(&g, &JsonValue::Null, &interfaces(&["Base"], true)).unwrap(),
        Tok::Tagged { tag: s("Null"), children: vec![] }
    );
    assert_err(
        encode(&g, &JsonValue::Null, &interfaces(&["Base"], false)),
        mismatch("Object (implementing interface)", "Null"),
    );
}

#[test]
fn interface_errors() {
    let g = grammar();
    let base = interfaces(&["Base"], false);
    assert_err(encode(&g, &obj(vec![("size", num(1.0))]), &base), Error::MissingField(s("type")));
    assert_err(encode(&g, &obj(vec![("type", num(1.0))]), &base), mismatch("type name (as String)", "Number"));
    assert_err(encode(&g, &obj(vec![("type", jstr("Tree"))]), &base), Error::NoSuchKind(s("Tree")));
    // An enumeration is a node of the grammar, but no interface.
    assert_err(encode(&g, &obj(vec![("type", jstr("Color"))]), &base), Error::NoSuchRefinement(s("Color")));
    // `Leaf` does not refine `Base`.
    assert_err(encode(&g, &obj(vec![("type", jstr("Leaf"))]), &base), Error::NoSuchRefinement(s("Leaf")));
    // A field of the interface is missing.
    assert_err(
        encode(&g, &obj(vec![("type", jstr("Node")), ("color", jstr("red"))]), &base),
        Error::MissingField(s("size")),
    );
    // A field of the interface does not conform.
    assert_err(
        encode(&g, &obj(vec![("type", jstr("Node")), ("color", jstr("blue")), ("size", num(1.0))]), &base),
        Error::NoSuchLiteral { strings: vec![s("red"), s("green")] },
    );
}

#[test]
fn writer_errors_are_reported() {
    let g = grammar();
    let mut encoder = Encoder::new(&g, TreeTokenWriter::with_limit(0));
    assert_err(encoder.encode(&JsonValue::Bool(true), &Type::Boolean), Error::TokenWriterError(LimitReached));
    // Two items fit, the list token does not.
    let v = JsonValue::Array(vec![num(1.0), num(2.0)]);
    let mut encoder = Encoder::new(&g, TreeTokenWriter::with_limit(2));
    assert_err(encoder.encode(&v, &Type::Array(Box::new(Type::Number))), Error::TokenWriterError(LimitReached));
    assert_eq!(encoder.done().remaining(), Some(0));
    // With one more token, it fits.
    let mut encoder = Encoder::new(&g, TreeTokenWriter::with_limit(3));
    assert!(encoder.encode(&v, &Type::Array(Box::new(Type::Number))).is_ok());
    assert_eq!(encoder.done().remaining(), Some(0));
}

#[test]
fn conforming_value_succeeds_with_an_unlimited_writer() {
    let g = grammar();
    let ty = Type::Array(Box::new(interfaces(&["Base"], true)));
    let v = JsonValue::Array(vec![
        JsonValue::Null,
        obj(vec![("type", jstr("Node")), ("size", num(0.0)), ("color", jstr("green"))]),
    ]);
    assert_eq!(
        encode(&g, &v, &ty).unwrap(),
        Tok::List(vec![
            Tok::Tagged { tag: s("Null"), children: vec![] },
            Tok::Tagged { tag: s("Node"), children: vec![(s("color"), string("green")), (s("size"), float(0.0))] },
        ])
    );
}

#[test]
fn encoder_keeps_the_writer() {
    let g = grammar();
    let encoder = Encoder::new(&g, TreeTokenWriter::with_limit(5));
    assert_eq!(encoder.done().remaining(), Some(5));
}

#[test]
fn error_from_writer_error() {
    let e: Error<LimitReached> = Error::from(LimitReached);
    assert_eq!(format!("{:?}", e), format!("{:?}", Error::<LimitReached>::TokenWriterError(LimitReached)));
}

#[test]
fn type_names() {
    assert_eq!(type_of(&JsonValue::Null), "Null");
    assert_eq!(type_of(&JsonValue::Bool(true)), "Bool");
    assert_eq!(type_of(&num(0.0)), "Number");
    assert_eq!(type_of(&jstr("")), "String");
    assert_eq!(type_of(&JsonValue::Array(vec![])), "Array");
    assert_eq!(type_of(&obj(vec![])), "Object");
}

#[test]
fn grammar_lookups() {
    let g = grammar();
    assert_eq!(g.get_kind(&s("Node")), Some(s("Node")));
    assert_eq!(g.get_kind(&s("Color")), Some(s("Color")));
    assert_eq!(g.get_kind(&s("Tree")), None);
    assert!(g.get_interface_by_kind(&s("Color")).is_none());
    assert_eq!(g.get_interface_by_kind(&s("Leaf")).unwrap().name(), "Leaf");
    assert_eq!(g.get_enum_by_name(&s("Color")).unwrap().strings(), &vec![s("red"), s("green")]);
    assert!(g.get_enum_by_name(&s("Node")).is_none());
    assert_eq!(g.get_ancestors_by_name_including_self(&s("Node")), Some(vec![s("Node"), s("Base")]));
    assert_eq!(g.get_ancestors_by_name_including_self(&s("Color")), None);
    let f = field("x", Type::Boolean);
    assert_eq!(f.name(), "x");
    assert!(matches!(f.type_(), Type::Boolean));
}

#[test]
fn object_lookup() {
    let v = JsonObject { entries: vec![(s("k"), JsonValue::Bool(true)), (s("k"), JsonValue::Null)] };
    assert!(matches!(v.get(&s("k")), Some(JsonValue::Bool(true))));
    assert!(v.get(&s("missing")).is_none());
}

#[test]
fn token_tree_copy() {
    let t = Tok::Tagged { tag: s("T"), children: vec![(s("a"), Tok::List(vec![Tok::Bool(true), string("x")]))] };
    assert_eq!(t.copy(), t);
}
