//! Encoding of a JSON value into a token tree, driven by a grammar.
use vstd::prelude::*;

use crate::grammar::{
    ancestors_including_self, enum_index, has_node, interface_index, is_first_interface, Field,
    Interface, Syntax, Type,
};
use crate::json::{
    json_kind_name, key_index, lemma_lookup_insert_other_keys, member_value, type_of, JsonObject,
    JsonValue,
};
use crate::token::{field_views, tree_views, TokenWriter};

verus! {

/// Why a value could not be encoded.
#[derive(Debug)]
pub enum Error<E> {
    Mismatch { expected: String, got: String },
    NoSuchInterface(String),
    NoSuchRefinement(String),
    NoSuchEnum(String),
    NoSuchKind(String),
    MissingField(String),
    NoSuchLiteral { strings: Vec<String> },
    TokenWriterError(E),
}

/// Mathematical view of an `Error`: strings are taken by their characters.
pub enum ErrorView<E> {
    Mismatch { expected: Seq<char>, got: Seq<char> },
    NoSuchInterface(Seq<char>),
    NoSuchRefinement(Seq<char>),
    NoSuchEnum(Seq<char>),
    NoSuchKind(Seq<char>),
    MissingField(Seq<char>),
    NoSuchLiteral { strings: Seq<Seq<char>> },
    TokenWriterError(E),
}

impl<E> View for Error<E> {
    type V = ErrorView<E>;

    open spec fn view(&self) -> ErrorView<E> {
        match self {
            Error::Mismatch { expected, got } => ErrorView::Mismatch {
                expected: expected@,
                got: got@,
            },
            Error::NoSuchInterface(s) => ErrorView::NoSuchInterface(s@),
            Error::NoSuchRefinement(s) => ErrorView::NoSuchRefinement(s@),
            Error::NoSuchEnum(s) => ErrorView::NoSuchEnum(s@),
            Error::NoSuchKind(s) => ErrorView::NoSuchKind(s@),
            Error::MissingField(s) => ErrorView::MissingField(s@),
            Error::NoSuchLiteral { strings } => ErrorView::NoSuchLiteral {
                strings: strings@.map_values(|s: String| s@),
            },
            Error::TokenWriterError(e) => ErrorView::TokenWriterError(*e),
        }
    }
}

impl<E> From<E> for Error<E> {
    fn from(value: E) -> (r: Self)
        ensures
            r == Error::<E>::TokenWriterError(value),
    {
        Error::TokenWriterError(value)
    }
}

impl<E> vstd::std_specs::convert::FromSpecImpl<E> for Error<E> {
    open spec fn obeys_from_spec() -> bool {
        true
    }

    open spec fn from_spec(v: E) -> Self {
        Error::TokenWriterError(v)
    }
}

/// The view of a result whose error is an `Error`.
pub open spec fn result_view<T: View, E>(r: Result<T, Error<E>>) -> Result<T::V, ErrorView<E>> {
    match r {
        Ok(t) => Ok(t@),
        Err(e) => Err(e@),
    }
}

/// The view of the result of `encode_structure`: each field with its tree.
pub open spec fn fields_result_view<T: View, E>(r: Result<Vec<(&Field, T)>, Error<E>>) -> Result<
    Seq<(Field, T::V)>,
    ErrorView<E>,
> {
    match r {
        Ok(v) => Ok(field_views(v@)),
        Err(e) => Err(e@),
    }
}

/// A writer's state and result, with a writer error reported as `TokenWriterError`.
pub open spec fn lift<B, T, E>(p: (B, Result<T, E>)) -> (B, Result<T, ErrorView<E>>) {
    (
        p.0,
        match p.1 {
            Ok(t) => Ok(t),
            Err(e) => Err(ErrorView::TokenWriterError(e)),
        },
    )
}

/// The error for a value of the wrong JSON type.
pub open spec fn mismatch<E>(expected: Seq<char>, got: JsonValue) -> ErrorView<E> {
    ErrorView::Mismatch { expected, got: json_kind_name(got) }
}

/// The interface refines (or is) one of the named interfaces.
pub open spec fn refines_one_of(iface: Interface, names: Seq<String>) -> bool {
    let ancestors = ancestors_including_self(iface);
    exists|i: int, j: int|
        0 <= i < ancestors.len() && 0 <= j < names.len() && #[trigger] names[j]@
            == #[trigger] ancestors[i]
}

/// The writer's state after encoding `value` with type `ty` from state `w`,
/// and the result.
pub open spec fn encode_spec<B: TokenWriter>(g: Syntax, w: B::V, value: JsonValue, ty: Type) -> (
    B::V,
    Result<<B::Tree as View>::V, ErrorView<B::Error>>,
)
    decreases value, 0nat,
{
    match ty {
        Type::Array(kind) => match value {
            JsonValue::Array(list) => {
                let (w1, r) = encode_items_spec::<B>(g, w, list@, *kind);
                match r {
                    Ok(trees) => lift(B::spec_list(w1, trees)),
                    Err(e) => (w1, Err(e)),
                }
            },
            _ => (w, Err(mismatch("Array"@, value))),
        },
        Type::Obj(structure) => match value {
            JsonValue::Object(obj) => {
                let (w1, r) = encode_fields_spec::<B>(g, w, obj.entries@, structure.fields@);
                match r {
                    Ok(contents) => lift(
                        B::spec_untagged_tuple(
                            w1,
                            contents.map_values(|c: (Field, <B::Tree as View>::V)| c.1),
                        ),
                    ),
                    Err(e) => (w1, Err(e)),
                }
            },
            _ => (w, Err(mismatch("Object"@, value))),
        },
        Type::Enum(name) => match enum_index(g, name@) {
            None => (w, Err(ErrorView::NoSuchEnum(name@))),
            Some(i) => match value {
                JsonValue::String(s) => {
                    let strings = g.enums@[i].strings@.map_values(|c: String| c@);
                    if strings.contains(s@) {
                        lift(B::spec_string(w, Some(s@)))
                    } else {
                        (w, Err(ErrorView::NoSuchLiteral { strings }))
                    }
                },
                _ => (w, Err(mismatch("String"@, value))),
            },
        },
        Type::Interfaces { names, or_null } => {
            if or_null && value is Null {
                lift(B::spec_tagged_tuple(w, "Null"@, Seq::empty()))
            } else {
                match value {
                    JsonValue::Object(obj) => match key_index(obj.entries@, "type"@) {
                        None => (w, Err(ErrorView::MissingField("type"@))),
                        Some(j) => match obj.entries@[j].1 {
                            JsonValue::String(kind) => {
                                if !has_node(g, kind@) {
                                    (w, Err(ErrorView::NoSuchKind(kind@)))
                                } else {
                                    match interface_index(g, kind@) {
                                        None => (w, Err(ErrorView::NoSuchRefinement(kind@))),
                                        Some(k) => {
                                            let iface = g.interfaces@[k];
                                            if !refines_one_of(iface, names@) {
                                                (w, Err(ErrorView::NoSuchRefinement(kind@)))
                                            } else {
                                                let (w1, r) = encode_fields_spec::<B>(
                                                    g,
                                                    w,
                                                    obj.entries@,
                                                    iface.contents.fields@,
                                                );
                                                match r {
                                                    Ok(contents) => lift(
                                                        B::spec_tagged_tuple(w1, kind@, contents),
                                                    ),
                                                    Err(e) => (w1, Err(e)),
                                                }
                                            }
                                        },
                                    }
                                }
                            },
                            other => (w, Err(mismatch("type name (as String)"@, other))),
                        },
                    },
                    _ => (w, Err(mismatch("Object (implementing interface)"@, value))),
                }
            }
        },
        Type::Boolean => match value {
            JsonValue::Bool(b) => lift(B::spec_bool(w, b)),
            _ => (w, Err(mismatch("bool"@, value))),
        },
        Type::String => match value {
            JsonValue::String(s) => lift(B::spec_string(w, Some(s@))),
            _ => (w, Err(mismatch("String"@, value))),
        },
        Type::Number => match value {
            JsonValue::Number(n) => lift(B::spec_float(w, n)),
            _ => (w, Err(mismatch("Number"@, value))),
        },
    }
}

/// Encode the items of a list in order, stopping at the first error.
pub open spec fn encode_items_spec<B: TokenWriter>(
    g: Syntax,
    w: B::V,
    items: Seq<JsonValue>,
    ty: Type,
) -> (B::V, Result<Seq<<B::Tree as View>::V>, ErrorView<B::Error>>)
    decreases items, 0nat,
{
    if items.len() == 0 {
        (w, Ok(Seq::empty()))
    } else {
        let (w1, r) = encode_items_spec::<B>(g, w, items.subrange(0, items.len() - 1), ty);
        match r {
            Err(e) => (w1, Err(e)),
            Ok(trees) => {
                let (w2, r2) = encode_spec::<B>(g, w1, items[items.len() - 1], ty);
                match r2 {
                    Err(e) => (w2, Err(e)),
                    Ok(t) => (w2, Ok(trees.push(t))),
                }
            },
        }
    }
}

/// Encode the fields of a structure in order, each from the member of the
/// object that has its name, stopping at the first error.
pub open spec fn encode_fields_spec<B: TokenWriter>(
    g: Syntax,
    w: B::V,
    entries: Seq<(String, JsonValue)>,
    fields: Seq<Field>,
) -> (B::V, Result<Seq<(Field, <B::Tree as View>::V)>, ErrorView<B::Error>>)
    decreases entries, fields.len(),
{
    if fields.len() == 0 {
        (w, Ok(Seq::empty()))
    } else {
        let (w1, r) = encode_fields_spec::<B>(
            g,
            w,
            entries,
            fields.subrange(0, fields.len() - 1),
        );
        match r {
            Err(e) => (w1, Err(e)),
            Ok(contents) => {
                let field = fields[fields.len() - 1];
                match key_index(entries, field.name@) {
                    None => (w1, Err(ErrorView::MissingField(field.name@))),
                    Some(j) => {
                        proof {
                            crate::json::lemma_key_index(entries, field.name@);
                        }
                        let (w2, r2) = encode_spec::<B>(g, w1, entries[j].1, field.type_);
                        match r2 {
                            Err(e) => (w2, Err(e)),
                            Ok(t) => (w2, Ok(contents.push((field, t)))),
                        }
                    },
                }
            },
        }
    }
}

/// Encoding the fields of a structure reads only the members that the
/// fields name: two objects that give each field name the same value (or
/// both none) encode alike, through the same writer calls in the same order,
/// to the same result and final writer state.
pub proof fn lemma_fields_read_named_members<B: TokenWriter>(
    g: Syntax,
    w: B::V,
    a: Seq<(String, JsonValue)>,
    b: Seq<(String, JsonValue)>,
    fields: Seq<Field>,
)
    requires
        forall|i: int|
            0 <= i < fields.len() ==> member_value(a, (#[trigger] fields[i]).name@)
                == member_value(b, fields[i].name@),
    ensures
        encode_fields_spec::<B>(g, w, a, fields) == encode_fields_spec::<B>(g, w, b, fields),
    decreases fields.len(),
{
    if fields.len() > 0 {
        let init = fields.subrange(0, fields.len() - 1);
        assert forall|i: int| 0 <= i < init.len() implies member_value(
            a,
            (#[trigger] init[i]).name@,
        ) == member_value(b, init[i].name@) by {
            assert(init[i] == fields[i]);
        }
        lemma_fields_read_named_members::<B>(g, w, a, b, init);
        let last = fields[fields.len() - 1];
        assert(member_value(a, last.name@) == member_value(b, last.name@));
    }
}

/// Adding to an object, at any position, members whose keys name no field
/// leaves the encoding of the fields unchanged: the same writer calls in the
/// same order, the same result and the same final writer state.
pub proof fn lemma_fields_ignore_extra_members<B: TokenWriter>(
    g: Syntax,
    w: B::V,
    entries: Seq<(String, JsonValue)>,
    extra: Seq<(String, JsonValue)>,
    k: int,
    fields: Seq<Field>,
)
    requires
        0 <= k <= entries.len(),
        forall|i: int, j: int|
            0 <= i < extra.len() && 0 <= j < fields.len() ==> (#[trigger] extra[i]).0@
                != (#[trigger] fields[j]).name@,
    ensures
        encode_fields_spec::<B>(g, w, entries.take(k) + extra + entries.skip(k), fields)
            == encode_fields_spec::<B>(g, w, entries, fields),
{
    let merged = entries.take(k) + extra + entries.skip(k);
    assert forall|j: int| 0 <= j < fields.len() implies member_value(
        merged,
        (#[trigger] fields[j]).name@,
    ) == member_value(entries, fields[j].name@) by {
        assert forall|i: int| 0 <= i < extra.len() implies (#[trigger] extra[i]).0@
            != fields[j].name@ by {
            assert(extra[i].0@ != fields[j].name@);
        }
        lemma_lookup_insert_other_keys(entries, extra, k, fields[j].name@);
    }
    lemma_fields_read_named_members::<B>(g, w, merged, entries, fields);
}

/// If encoding a prefix of the items fails, encoding all of them fails the
/// same way.
proof fn lemma_items_error<B: TokenWriter>(
    g: Syntax,
    w: B::V,
    items: Seq<JsonValue>,
    ty: Type,
    k: int,
)
    requires
        0 <= k <= items.len(),
        encode_items_spec::<B>(g, w, items.subrange(0, k), ty).1 is Err,
    ensures
        encode_items_spec::<B>(g, w, items, ty) == encode_items_spec::<B>(
            g,
            w,
            items.subrange(0, k),
            ty,
        ),
    decreases items.len(),
{
    if k == items.len() {
        assert(items.subrange(0, k) =~= items);
    } else {
        let init = items.subrange(0, items.len() - 1);
        assert(init.subrange(0, k) =~= items.subrange(0, k));
        lemma_items_error::<B>(g, w, init, ty, k);
    }
}

/// If encoding the fields of a prefix fails, encoding all of them fails the
/// same way.
proof fn lemma_fields_error<B: TokenWriter>(
    g: Syntax,
    w: B::V,
    entries: Seq<(String, JsonValue)>,
    fields: Seq<Field>,
    k: int,
)
    requires
        0 <= k <= fields.len(),
        encode_fields_spec::<B>(g, w, entries, fields.subrange(0, k)).1 is Err,
    ensures
        encode_fields_spec::<B>(g, w, entries, fields) == encode_fields_spec::<B>(
            g,
            w,
            entries,
            fields.subrange(0, k),
        ),
    decreases fields.len(),
{
    if k == fields.len() {
        assert(fields.subrange(0, k) =~= fields);
    } else {
        let init = fields.subrange(0, fields.len() - 1);
        assert(init.subrange(0, k) =~= fields.subrange(0, k));
        lemma_fields_error::<B>(g, w, entries, init, k);
    }
}

/// Copies of the given strings.
fn clone_strings(v: &Vec<String>) -> (r: Vec<String>)
    ensures
        r@.map_values(|s: String| s@) == v@.map_values(|s: String| s@),
{
    let mut out: Vec<String> = Vec::new();
    let mut i: usize = 0;
    while i < v.len()
        invariant
            i <= v@.len(),
            out@.len() == i,
            forall|j: int| 0 <= j < i ==> (#[trigger] out@[j])@ == v@[j]@,
        decreases v.len() - i,
    {
        out.push(v[i].clone());
        i = i + 1;
    }
    assert(out@.map_values(|s: String| s@) =~= v@.map_values(|s: String| s@));
    out
}

/// Some ancestor is among the candidate names.
fn refines_one_of_names(ancestors: &Vec<String>, names: &Vec<String>) -> (r: bool)
    ensures
        r == exists|i: int, j: int|
            0 <= i < ancestors@.len() && 0 <= j < names@.len() && #[trigger] names@[j]@
                == #[trigger] ancestors@[i]@,
{
    let mut i: usize = 0;
    while i < ancestors.len()
        invariant
            i <= ancestors@.len(),
            forall|a: int, j: int|
                0 <= a < i && 0 <= j < names@.len() ==> #[trigger] names@[j]@
                    != #[trigger] ancestors@[a]@,
        decreases ancestors.len() - i,
    {
        let mut j: usize = 0;
        while j < names.len()
            invariant
                i < ancestors@.len(),
                j <= names@.len(),
                forall|a: int, b: int|
                    0 <= a < i && 0 <= b < names@.len() ==> #[trigger] names@[b]@
                        != #[trigger] ancestors@[a]@,
                forall|b: int| 0 <= b < j ==> #[trigger] names@[b]@ != ancestors@[i as int]@,
            decreases names.len() - j,
        {
            if names[j] == ancestors[i] {
                return true;
            }
            j = j + 1;
        }
        i = i + 1;
    }
    false
}

/// Encodes JSON values into token trees, following a grammar.
#[verifier::reject_recursive_types(Tree)]
#[verifier::reject_recursive_types(E)]
pub struct Encoder<'a, B, Tree, E> where B: TokenWriter<Tree = Tree, Error = E>, E: std::fmt::Debug {
    grammar: &'a Syntax,
    builder: B,
}

impl<'a, B, Tree, E> Encoder<'a, B, Tree, E> where
    B: TokenWriter<Tree = Tree, Error = E>,
    Tree: View,
    E: std::fmt::Debug,
 {
    /// The grammar that drives the encoder.
    pub closed spec fn grammar_spec(&self) -> Syntax {
        *self.grammar
    }

    /// The token writer, in its current state.
    pub closed spec fn builder_spec(&self) -> B {
        self.builder
    }

    pub fn new(syntax: &'a Syntax, builder: B) -> (r: Self)
        ensures
            r.grammar_spec() == *syntax,
            r.builder_spec() == builder,
    {
        Encoder { grammar: syntax, builder }
    }

    /// Finalize the encoder, recover the builder.
    pub fn done(self) -> (r: B)
        ensures
            r == self.builder_spec(),
    {
        self.builder
    }

    /// Encode a JSON into a token tree based on a grammar.
    /// This step doesn't perform any interesting check on the JSON.
    pub fn encode(&mut self, value: &JsonValue, kind: &Type) -> (r: Result<Tree, Error<E>>)
        ensures
            final(self).grammar_spec() == old(self).grammar_spec(),
            (final(self).builder_spec()@, result_view(r)) == encode_spec::<B>(
                old(self).grammar_spec(),
                old(self).builder_spec()@,
                *value,
                *kind,
            ),
        decreases value,
    {
        let grammar: &'a Syntax = self.grammar;
        match kind {
            Type::Array(item_kind) => {
                let list = match value {
                    JsonValue::Array(list) => list,
                    _ => {
                        return Err(Error::Mismatch { expected: "Array".to_owned(), got: type_of(value) });
                    },
                };
                let ghost w0 = self.builder@;
                let mut encoded: Vec<Tree> = Vec::new();
                let mut i: usize = 0;
                proof {
                    assert(tree_views(encoded@) =~= Seq::<Tree::V>::empty());
                    assert(list@.subrange(0, 0) =~= Seq::<JsonValue>::empty());
                }
                while i < list.len()
                    invariant
                        i <= list@.len(),
                        self.grammar == grammar,
                        *grammar == old(self).grammar_spec(),
                        w0 == old(self).builder_spec()@,
                        *value == JsonValue::Array(*list),
                        *kind == Type::Array(*item_kind),
                        encode_items_spec::<B>(*grammar, w0, list@.subrange(0, i as int), **item_kind)
                            == (
                            self.builder@,
                            Ok::<Seq<Tree::V>, ErrorView<E>>(tree_views(encoded@)),
                        ),
                    decreases list.len() - i,
                {
                    proof {
                        let ghost v = *value;
                        assert(decreases_to!(v => v->Array_0));
                        assert(decreases_to!(*value => list@[i as int]));
                        assert(list@.subrange(0, i + 1).subrange(0, i as int) =~= list@.subrange(0, i as int));
                    }
                    let item = self.encode(&list[i], item_kind);
                    match item {
                        Ok(t) => {
                            let ghost before = encoded@;
                            encoded.push(t);
                            proof {
                                assert(tree_views(encoded@) =~= tree_views(before).push(t@));
                            }
                        },
                        Err(e) => {
                            proof {
                                lemma_items_error::<B>(*grammar, w0, list@, **item_kind, i + 1);
                            }
                            return Err(e);
                        },
                    }
                    i = i + 1;
                }
                proof {
                    assert(list@.subrange(0, list@.len() as int) =~= list@);
                }
                match self.builder.list(encoded) {
                    Ok(result) => Ok(result),
                    Err(e) => Err(Error::TokenWriterError(e)),
                }
            },
            Type::Obj(structure) => {
                let object = match value {
                    JsonValue::Object(object) => object,
                    _ => {
                        return Err(
                            Error::Mismatch { expected: "Object".to_owned(), got: type_of(value) },
                        );
                    },
                };
                proof {
                    let ghost v = *value;
                    assert(decreases_to!(v => v->Object_0));
                }
                let mut contents = match self.encode_structure(object, structure.fields()) {
                    Ok(contents) => contents,
                    Err(e) => {
                        return Err(e);
                    },
                };
                // This is an anonymous structure, so we expect that the order
                // of fields has been specified elsewhere.
                let ghost all = contents@;
                let mut trees: Vec<Tree> = Vec::new();
                while contents.len() > 0
                    invariant
                        trees@ + contents@.map_values(|c: (&Field, Tree)| c.1) == all.map_values(
                            |c: (&Field, Tree)| c.1,
                        ),
                    decreases contents.len(),
                {
                    let ghost before = contents@;
                    let (_, tree) = contents.remove(0);
                    trees.push(tree);
                    proof {
                        assert(before.map_values(|c: (&Field, Tree)| c.1) =~= seq![before[0].1] + contents@.map_values(|c: (&Field, Tree)| c.1));
                    }
                }
                proof {
                    assert(trees@ =~= all.map_values(|c: (&Field, Tree)| c.1));
                    assert(tree_views(trees@) =~= field_views(all).map_values(
                        |c: (Field, Tree::V)| c.1,
                    ));
                }
                match self.builder.untagged_tuple(trees.as_slice()) {
                    Ok(result) => Ok(result),
                    Err(e) => Err(Error::TokenWriterError(e)),
                }
            },
            Type::Enum(name) => {
                let enum_ = match grammar.get_enum_by_name(name) {
                    Some(enum_) => enum_,
                    None => {
                        return Err(Error::NoSuchEnum(name.clone()));
                    },
                };
                let string = match value {
                    JsonValue::String(string) => string,
                    _ => {
                        return Err(
                            Error::Mismatch { expected: "String".to_owned(), got: type_of(value) },
                        );
                    },
                };
                let strings = enum_.strings();
                let ghost idx = enum_index(*grammar, name@).unwrap();
                let ghost views = strings@.map_values(|c: String| c@);
                let mut i: usize = 0;
                while i < strings.len()
                    invariant
                        i <= strings@.len(),
                        views == strings@.map_values(|c: String| c@),
                        self.grammar == grammar,
                        *grammar == old(self).grammar_spec(),
                        self.builder == old(self).builder_spec(),
                        *value == JsonValue::String(*string),
                        *kind == Type::Enum(*name),
                        enum_index(*grammar, name@) == Some(idx),
                        grammar.enums@[idx].strings == *strings,
                        forall|j: int| 0 <= j < i ==> (#[trigger] strings@[j])@ != string@,
                    decreases strings.len() - i,
                {
                    if strings[i] == *string {
                        assert(views[i as int] == string@);
                        return match self.builder.string(Some(strings[i].as_str())) {
                            Ok(result) => Ok(result),
                            Err(e) => Err(Error::TokenWriterError(e)),
                        };
                    }
                    i = i + 1;
                }
                proof {
                    assert forall|j: int| 0 <= j < views.len() implies views[j] != string@ by {
                        assert(strings@[j]@ != string@);
                    }
                }
                Err(Error::NoSuchLiteral { strings: clone_strings(strings) })
            },
            Type::Interfaces { names: interfaces, or_null } => {
                // Special-case: hardcoded `"Null"`.
                if *or_null && matches!(value, JsonValue::Null) {
                    let empty: Vec<(&Field, Tree)> = Vec::new();
                    proof {
                        assert(field_views(empty@) =~= Seq::<(Field, Tree::V)>::empty());
                    }
                    return match self.builder.tagged_tuple("Null", empty.as_slice()) {
                        Ok(result) => Ok(result),
                        Err(e) => Err(Error::TokenWriterError(e)),
                    };
                }
                let object = match value {
                    JsonValue::Object(object) => object,
                    _ => {
                        return Err(
                            Error::Mismatch {
                                expected: "Object (implementing interface)".to_owned(),
                                got: type_of(value),
                            },
                        );
                    },
                };
                proof {
                    let ghost v = *value;
                    assert(decreases_to!(v => v->Object_0));
                }
                let type_key = "type".to_owned();
                let type_field = match object.get(&type_key) {
                    Some(type_field) => type_field,
                    None => {
                        return Err(Error::MissingField("type".to_owned()));
                    },
                };
                let kind_name = match type_field {
                    JsonValue::String(kind_name) => kind_name,
                    _ => {
                        return Err(
                            Error::Mismatch {
                                expected: "type name (as String)".to_owned(),
                                got: type_of(type_field),
                            },
                        );
                    },
                };
                let kind = match grammar.get_kind(kind_name) {
                    Some(kind) => kind,
                    None => {
                        return Err(Error::NoSuchKind(kind_name.clone()));
                    },
                };
                // We have a kind, so we know how to encode the data. We just need
                // to make sure that we expected this interface here.
                proof {
                    crate::grammar::lemma_interface_index(*grammar, kind@);
                }
                match grammar.get_interface_by_kind(&kind) {
                    Some(interface) => {
                        let ancestors = match grammar.get_ancestors_by_name_including_self(
                            interface.name(),
                        ) {
                            Some(ancestors) => ancestors,
                            None => {
                                proof {
                                    crate::grammar::lemma_interface_index(
                                        *grammar,
                                        interface.name@,
                                    );
                                }
                                return Err(Error::NoSuchRefinement(kind.clone()));
                            },
                        };
                        let found = refines_one_of_names(&ancestors, interfaces);
                        proof {
                            let anc = ancestors_including_self(*interface);
                            assert(ancestors@.len() == anc.len());
                            assert(forall|i: int|
                                0 <= i < ancestors@.len() ==> #[trigger] ancestors@[i]@ == anc[i]);
                            if found {
                                let (i, j) = choose|i: int, j: int|
                                    0 <= i < ancestors@.len() && 0 <= j < interfaces@.len()
                                        && #[trigger] interfaces@[j]@ == #[trigger] ancestors@[i]@;
                                assert(interfaces@[j]@ == anc[i]);
                            }
                        }
                        if !found {
                            return Err(Error::NoSuchRefinement(kind.clone()));
                        }
                        let fields = interface.contents().fields();
                        let contents = match self.encode_structure(object, fields) {
                            Ok(contents) => contents,
                            Err(e) => {
                                return Err(e);
                            },
                        };
                        // Write the contents with the tag of the refined interface.
                        match self.builder.tagged_tuple(kind.as_str(), contents.as_slice()) {
                            Ok(labelled) => Ok(labelled),
                            Err(e) => Err(Error::TokenWriterError(e)),
                        }
                    },
                    None => Err(Error::NoSuchRefinement(kind.clone())),
                }
            },
            Type::Boolean => {
                let data = match value {
                    JsonValue::Bool(data) => *data,
                    _ => {
                        return Err(
                            Error::Mismatch { expected: "bool".to_owned(), got: type_of(value) },
                        );
                    },
                };
                match self.builder.bool(data) {
                    Ok(result) => Ok(result),
                    Err(e) => Err(Error::TokenWriterError(e)),
                }
            },
            Type::String => {
                let data = match value {
                    JsonValue::String(data) => data,
                    _ => {
                        return Err(
                            Error::Mismatch { expected: "String".to_owned(), got: type_of(value) },
                        );
                    },
                };
                match self.builder.string(Some(data.as_str())) {
                    Ok(result) => Ok(result),
                    Err(e) => Err(Error::TokenWriterError(e)),
                }
            },
            Type::Number => {
                let data = match value {
                    JsonValue::Number(data) => *data,
                    _ => {
                        return Err(
                            Error::Mismatch { expected: "Number".to_owned(), got: type_of(value) },
                        );
                    },
                };
                match self.builder.float(data) {
                    Ok(result) => Ok(result),
                    Err(e) => Err(Error::TokenWriterError(e)),
                }
            },
        }
    }

    /// Encode each field of a structure from the member of `object` that
    /// has its name, in the order of the fields.
    fn encode_structure<'b>(&mut self, object: &'b JsonObject, fields: &'b [Field]) -> (r: Result<
        Vec<(&'b Field, Tree)>,
        Error<E>,
    >)
        ensures
            final(self).grammar_spec() == old(self).grammar_spec(),
            (final(self).builder_spec()@, fields_result_view(r)) == encode_fields_spec::<B>(
                old(self).grammar_spec(),
                old(self).builder_spec()@,
                object.entries@,
                fields@,
            ),
        decreases object,
    {
        let ghost w0 = self.builder@;
        let ghost g = *self.grammar;
        let mut result: Vec<(&'b Field, Tree)> = Vec::new();
        let mut i: usize = 0;
        proof {
            assert(fields@.subrange(0, 0) =~= Seq::<Field>::empty());
            assert(field_views(result@) =~= Seq::<(Field, Tree::V)>::empty());
        }
        while i < fields.len()
            invariant
                i <= fields@.len(),
                *self.grammar == g,
                g == old(self).grammar_spec(),
                w0 == old(self).builder_spec()@,
                encode_fields_spec::<B>(g, w0, object.entries@, fields@.subrange(0, i as int)) == (
                    self.builder@,
                    Ok::<Seq<(Field, Tree::V)>, ErrorView<E>>(field_views(result@)),
                ),
            decreases fields.len() - i,
        {
            let field = &fields[i];
            proof {
                assert(fields@.subrange(0, i + 1).subrange(0, i as int) =~= fields@.subrange(
                    0,
                    i as int,
                ));
                crate::json::lemma_key_index(object.entries@, field.name@);
            }
            match object.get(field.name()) {
                Some(source) => {
                    proof {
                        let ghost o = *object;
                        let j = key_index(o.entries@, field.name@).unwrap();
                        assert(decreases_to!(o => o.entries));
                        vstd::std_specs::vec::axiom_vec_index_decreases(o.entries, j);
                        assert(decreases_to!(o => o.entries@[j].1));
                    }
                    match self.encode(source, field.type_()) {
                        Ok(encoded) => {
                            let ghost before = result@;
                            result.push((field, encoded));
                            proof {
                                assert(field_views(result@) =~= field_views(before).push(
                                    (*field, encoded@),
                                ));
                            }
                        },
                        Err(e) => {
                            proof {
                                lemma_fields_error::<B>(g, w0, object.entries@, fields@, i + 1);
                            }
                            return Err(e);
                        },
                    }
                },
                None => {
                    proof {
                        lemma_fields_error::<B>(g, w0, object.entries@, fields@, i + 1);
                    }
                    return Err(Error::MissingField(field.name().clone()));
                },
            }
            i = i + 1;
        }
        proof {
            assert(fields@.subrange(0, fields@.len() as int) =~= fields@);
        }
        Ok(result)
    }
}

// ---------------------------------------------------------------------------
// Which values conform to a type of the grammar.
// ---------------------------------------------------------------------------

/// The value has the shape that the type asks for: the right JSON type,
/// every named enumeration, interface and field present in the grammar and
/// the object, and every string of an enumeration type one of its strings.
pub open spec fn conforms(g: Syntax, value: JsonValue, ty: Type) -> bool
    decreases value, 0nat,
{
    match ty {
        Type::Array(kind) => match value {
            JsonValue::Array(list) => items_conform(g, list@, *kind),
            _ => false,
        },
        Type::Obj(structure) => match value {
            JsonValue::Object(obj) => fields_conform(g, obj.entries@, structure.fields@),
            _ => false,
        },
        Type::Enum(name) => match enum_index(g, name@) {
            None => false,
            Some(i) => match value {
                JsonValue::String(s) => g.enums@[i].strings@.map_values(|c: String| c@).contains(
                    s@,
                ),
                _ => false,
            },
        },
        Type::Interfaces { names, or_null } => {
            if or_null && value is Null {
                true
            } else {
                match value {
                    JsonValue::Object(obj) => match key_index(obj.entries@, "type"@) {
                        None => false,
                        Some(j) => match obj.entries@[j].1 {
                            JsonValue::String(kind) => {
                                &&& has_node(g, kind@)
                                &&& match interface_index(g, kind@) {
                                    None => false,
                                    Some(k) => {
                                        &&& refines_one_of(g.interfaces@[k], names@)
                                        &&& fields_conform(
                                            g,
                                            obj.entries@,
                                            g.interfaces@[k].contents.fields@,
                                        )
                                    },
                                }
                            },
                            _ => false,
                        },
                    },
                    _ => false,
                }
            }
        },
        Type::Boolean => value is Bool,
        Type::String => value is String,
        Type::Number => value is Number,
    }
}

/// Every item conforms to the type.
pub open spec fn items_conform(g: Syntax, items: Seq<JsonValue>, ty: Type) -> bool
    decreases items, 0nat,
{
    if items.len() == 0 {
        true
    } else {
        items_conform(g, items.subrange(0, items.len() - 1), ty) && conforms(
            g,
            items[items.len() - 1],
            ty,
        )
    }
}

/// Every field has a member of its name in the object, whose value conforms
/// to the field's type.
pub open spec fn fields_conform(g: Syntax, entries: Seq<(String, JsonValue)>, fields: Seq<Field>) -> bool
    decreases entries, fields.len(),
{
    if fields.len() == 0 {
        true
    } else {
        &&& fields_conform(g, entries, fields.subrange(0, fields.len() - 1))
        &&& match key_index(entries, fields[fields.len() - 1].name@) {
            None => false,
            Some(j) => {
                proof {
                    crate::json::lemma_key_index(entries, fields[fields.len() - 1].name@);
                }
                conforms(g, entries[j].1, fields[fields.len() - 1].type_)
            },
        }
    }
}

/// From every state where `inv` holds, every call of the writer succeeds
/// and leaves the writer in a state where `inv` holds.
pub open spec fn writer_keeps_ok<B: TokenWriter>(inv: spec_fn(B::V) -> bool) -> bool {
    &&& forall|w: B::V, items: Seq<<B::Tree as View>::V>|
        inv(w) ==> (#[trigger] B::spec_list(w, items)).1 is Ok && inv(B::spec_list(w, items).0)
    &&& forall|w: B::V, children: Seq<<B::Tree as View>::V>|
        inv(w) ==> (#[trigger] B::spec_untagged_tuple(w, children)).1 is Ok && inv(
            B::spec_untagged_tuple(w, children).0,
        )
    &&& forall|w: B::V, tag: Seq<char>, children: Seq<(Field, <B::Tree as View>::V)>|
        inv(w) ==> (#[trigger] B::spec_tagged_tuple(w, tag, children)).1 is Ok && inv(
            B::spec_tagged_tuple(w, tag, children).0,
        )
    &&& forall|w: B::V, data: Option<Seq<char>>|
        inv(w) ==> (#[trigger] B::spec_string(w, data)).1 is Ok && inv(B::spec_string(w, data).0)
    &&& forall|w: B::V, data: bool|
        inv(w) ==> (#[trigger] B::spec_bool(w, data)).1 is Ok && inv(B::spec_bool(w, data).0)
    &&& forall|w: B::V, data: u64|
        inv(w) ==> (#[trigger] B::spec_float(w, data)).1 is Ok && inv(B::spec_float(w, data).0)
}

/// The error is one that the token writer reported.
pub open spec fn is_writer_error<E>(e: ErrorView<E>) -> bool {
    e is TokenWriterError
}

/// Encoding checks only that the value conforms to the type: it succeeds
/// only on conforming values; on a conforming value it fails only when the
/// token writer reports an error; and from a state where the writer cannot
/// fail (a state invariant `inv` that every call keeps), no writer error is
/// reported and the writer ends in such a state again.
pub proof fn lemma_encode_checks_conformance<B: TokenWriter>(
    g: Syntax,
    w: B::V,
    value: JsonValue,
    ty: Type,
    inv: spec_fn(B::V) -> bool,
)
    ensures
        encode_spec::<B>(g, w, value, ty).1 is Ok ==> conforms(g, value, ty),
        conforms(g, value, ty) ==> match encode_spec::<B>(g, w, value, ty).1 {
            Ok(_) => true,
            Err(e) => is_writer_error(e),
        },
        inv(w) && writer_keeps_ok::<B>(inv) ==> inv(encode_spec::<B>(g, w, value, ty).0) && match encode_spec::<B>(g, w, value, ty).1 {
            Ok(_) => true,
            Err(e) => !is_writer_error(e),
        },
    decreases value, 0nat,
{
    match ty {
        Type::Array(kind) => match value {
            JsonValue::Array(list) => {
                lemma_items_check_conformance::<B>(g, w, list@, *kind, inv);
            },
            _ => {},
        },
        Type::Obj(structure) => match value {
            JsonValue::Object(obj) => {
                let v = value;
                assert(decreases_to!(v => v->Object_0));
                lemma_fields_check_conformance::<B>(g, w, obj.entries@, structure.fields@, inv);
            },
            _ => {},
        },
        Type::Interfaces { names, or_null } => {
            if or_null && value is Null {
            } else {
                match value {
                    JsonValue::Object(obj) => match key_index(obj.entries@, "type"@) {
                        None => {},
                        Some(j) => match obj.entries@[j].1 {
                            JsonValue::String(kind) => {
                                if has_node(g, kind@) {
                                    match interface_index(g, kind@) {
                                        None => {},
                                        Some(k) => {
                                            let v = value;
                                            assert(decreases_to!(v => v->Object_0));
                                            lemma_fields_check_conformance::<B>(
                                                g,
                                                w,
                                                obj.entries@,
                                                g.interfaces@[k].contents.fields@,
                                                inv,
                                            );
                                        },
                                    }
                                }
                            },
                            _ => {},
                        },
                    },
                    _ => {},
                }
            }
        },
        _ => {},
    }
}

proof fn lemma_items_check_conformance<B: TokenWriter>(
    g: Syntax,
    w: B::V,
    items: Seq<JsonValue>,
    ty: Type,
    inv: spec_fn(B::V) -> bool,
)
    ensures
        encode_items_spec::<B>(g, w, items, ty).1 is Ok ==> items_conform(g, items, ty),
        items_conform(g, items, ty) ==> match encode_items_spec::<B>(g, w, items, ty).1 {
            Ok(_) => true,
            Err(e) => is_writer_error(e),
        },
        inv(w) && writer_keeps_ok::<B>(inv) ==> inv(encode_items_spec::<B>(g, w, items, ty).0) && match encode_items_spec::<B>(g, w, items, ty).1 {
            Ok(_) => true,
            Err(e) => !is_writer_error(e),
        },
    decreases items, 0nat,
{
    if items.len() > 0 {
        let init = items.subrange(0, items.len() - 1);
        lemma_items_check_conformance::<B>(g, w, init, ty, inv);
        let (w1, r) = encode_items_spec::<B>(g, w, init, ty);
        if r is Ok {
            lemma_encode_checks_conformance::<B>(g, w1, items[items.len() - 1], ty, inv);
        }
    }
}

proof fn lemma_fields_check_conformance<B: TokenWriter>(
    g: Syntax,
    w: B::V,
    entries: Seq<(String, JsonValue)>,
    fields: Seq<Field>,
    inv: spec_fn(B::V) -> bool,
)
    ensures
        encode_fields_spec::<B>(g, w, entries, fields).1 is Ok ==> fields_conform(g, entries, fields),
        fields_conform(g, entries, fields) ==> match encode_fields_spec::<B>(g, w, entries, fields).1 {
            Ok(_) => true,
            Err(e) => is_writer_error(e),
        },
        inv(w) && writer_keeps_ok::<B>(inv) ==> inv(encode_fields_spec::<B>(g, w, entries, fields).0) && match encode_fields_spec::<B>(g, w, entries, fields).1 {
            Ok(_) => true,
            Err(e) => !is_writer_error(e),
        },
    decreases entries, fields.len(),
{
    if fields.len() > 0 {
        let init = fields.subrange(0, fields.len() - 1);
        lemma_fields_check_conformance::<B>(g, w, entries, init, inv);
        let (w1, r) = encode_fields_spec::<B>(g, w, entries, init);
        if r is Ok {
            let field = fields[fields.len() - 1];
            match key_index(entries, field.name@) {
                None => {},
                Some(j) => {
                    crate::json::lemma_key_index(entries, field.name@);
                    lemma_encode_checks_conformance::<B>(g, w1, entries[j].1, field.type_, inv);
                },
            }
        }
    }
}

} // verus!
