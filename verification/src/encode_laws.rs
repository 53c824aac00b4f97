//! What the encoder writes for each type, stated through the token writer's
//! calls: each successful encoding ends in one writer call, whose arguments
//! are the value itself (for scalars) or the encodings of the parts in order
//! (for lists, structures and interface nodes).
use vstd::prelude::*;

use crate::encode::{
    encode_fields_spec, encode_items_spec, encode_spec, refines_one_of, ErrorView,
};
use crate::grammar::{interface_index, Field, Syntax, Type};
use crate::json::{lemma_key_index, member_value, JsonValue};
use crate::token::TokenWriter;

verus! {

/// `outcome` is what the writer call `call` gives, with a writer error
/// reported as `TokenWriterError`: the same final state, the same tree or
/// the same writer error.
pub open spec fn written_as<B: TokenWriter>(
    outcome: (B::V, Result<<B::Tree as View>::V, ErrorView<B::Error>>),
    call: (B::V, Result<<B::Tree as View>::V, B::Error>),
) -> bool {
    &&& outcome.0 == call.0
    &&& match call.1 {
        Ok(t) => outcome.1 == Ok::<<B::Tree as View>::V, ErrorView<B::Error>>(t),
        Err(e) => outcome.1 == Err::<<B::Tree as View>::V, ErrorView<B::Error>>(
            ErrorView::TokenWriterError(e),
        ),
    }
}

/// The items were encoded one after the other, each under `ty`, from state
/// `states[i]` to state `states[i + 1]`, giving `trees[i]`.
pub open spec fn items_in_order<B: TokenWriter>(
    g: Syntax,
    items: Seq<JsonValue>,
    ty: Type,
    states: Seq<B::V>,
    trees: Seq<<B::Tree as View>::V>,
) -> bool {
    &&& states.len() == items.len() + 1
    &&& trees.len() == items.len()
    &&& forall|i: int|
        0 <= i < items.len() ==> #[trigger] encode_spec::<B>(g, states[i], items[i], ty) == (
            states[i + 1],
            Ok::<<B::Tree as View>::V, ErrorView<B::Error>>(trees[i]),
        )
}

/// The fields were encoded one after the other, in grammar order: field `i`
/// from the value of the object's member of its name, under its type, from
/// state `states[i]` to state `states[i + 1]`, giving `contents[i]`, which
/// pairs the field with its tree.
pub open spec fn fields_in_order<B: TokenWriter>(
    g: Syntax,
    entries: Seq<(String, JsonValue)>,
    fields: Seq<Field>,
    states: Seq<B::V>,
    contents: Seq<(Field, <B::Tree as View>::V)>,
) -> bool {
    &&& states.len() == fields.len() + 1
    &&& contents.len() == fields.len()
    &&& forall|i: int|
        0 <= i < fields.len() ==> {
            &&& (#[trigger] contents[i]).0 == fields[i]
            &&& member_value(entries, fields[i].name@) is Some
            &&& encode_spec::<B>(
                g,
                states[i],
                member_value(entries, fields[i].name@)->Some_0,
                fields[i].type_,
            ) == (states[i + 1], Ok::<<B::Tree as View>::V, ErrorView<B::Error>>(contents[i].1))
        }
}

/// A successful encoding of a list of items goes through every item in order.
proof fn lemma_items_in_order<B: TokenWriter>(
    g: Syntax,
    w: B::V,
    items: Seq<JsonValue>,
    ty: Type,
) -> (states: Seq<B::V>)
    requires
        encode_items_spec::<B>(g, w, items, ty).1 is Ok,
    ensures
        items_in_order::<B>(g, items, ty, states, encode_items_spec::<B>(g, w, items, ty).1->Ok_0),
        states[0] == w,
        states[items.len() as int] == encode_items_spec::<B>(g, w, items, ty).0,
    decreases items.len(),
{
    if items.len() == 0 {
        seq![w]
    } else {
        let init = items.subrange(0, items.len() - 1);
        let ws = lemma_items_in_order::<B>(g, w, init, ty);
        let (w1, r) = encode_items_spec::<B>(g, w, init, ty);
        let ts = r->Ok_0;
        let last = items[items.len() - 1];
        let (w2, r2) = encode_spec::<B>(g, w1, last, ty);
        let states = ws.push(w2);
        let trees = ts.push(r2->Ok_0);
        assert(trees == encode_items_spec::<B>(g, w, items, ty).1->Ok_0);
        assert forall|i: int| 0 <= i < items.len() implies #[trigger] encode_spec::<B>(
            g,
            states[i],
            items[i],
            ty,
        ) == (states[i + 1], Ok::<<B::Tree as View>::V, ErrorView<B::Error>>(trees[i])) by {
            if i < items.len() - 1 {
                assert(items[i] == init[i]);
                assert(encode_spec::<B>(g, ws[i], init[i], ty) == (
                    ws[i + 1],
                    Ok::<<B::Tree as View>::V, ErrorView<B::Error>>(ts[i]),
                ));
            }
        }
        states
    }
}

/// A successful encoding of the fields of a structure goes through every
/// field in grammar order, each from the member of its name.
proof fn lemma_fields_in_order<B: TokenWriter>(
    g: Syntax,
    w: B::V,
    entries: Seq<(String, JsonValue)>,
    fields: Seq<Field>,
) -> (states: Seq<B::V>)
    requires
        encode_fields_spec::<B>(g, w, entries, fields).1 is Ok,
    ensures
        fields_in_order::<B>(
            g,
            entries,
            fields,
            states,
            encode_fields_spec::<B>(g, w, entries, fields).1->Ok_0,
        ),
        states[0] == w,
        states[fields.len() as int] == encode_fields_spec::<B>(g, w, entries, fields).0,
    decreases fields.len(),
{
    if fields.len() == 0 {
        seq![w]
    } else {
        let init = fields.subrange(0, fields.len() - 1);
        let ws = lemma_fields_in_order::<B>(g, w, entries, init);
        let (w1, r) = encode_fields_spec::<B>(g, w, entries, init);
        let cs = r->Ok_0;
        let field = fields[fields.len() - 1];
        lemma_key_index(entries, field.name@);
        let j = key_index_of(entries, field.name@);
        let (w2, r2) = encode_spec::<B>(g, w1, entries[j].1, field.type_);
        let states = ws.push(w2);
        let contents = cs.push((field, r2->Ok_0));
        assert(contents == encode_fields_spec::<B>(g, w, entries, fields).1->Ok_0);
        assert forall|i: int| 0 <= i < fields.len() implies {
            &&& (#[trigger] contents[i]).0 == fields[i]
            &&& member_value(entries, fields[i].name@) is Some
            &&& encode_spec::<B>(
                g,
                states[i],
                member_value(entries, fields[i].name@)->Some_0,
                fields[i].type_,
            ) == (states[i + 1], Ok::<<B::Tree as View>::V, ErrorView<B::Error>>(contents[i].1))
        } by {
            if i < fields.len() - 1 {
                assert(fields[i] == init[i]);
                assert(cs[i] == contents[i]);
            }
        }
        states
    }
}

/// The position that `key_index` gives, where it gives one.
spec fn key_index_of(entries: Seq<(String, JsonValue)>, key: Seq<char>) -> int {
    crate::json::key_index(entries, key)->Some_0
}

/// A boolean is written as a boolean token carrying its value.
pub proof fn law_bool_written<B: TokenWriter>(g: Syntax, w: B::V, b: bool)
    ensures
        written_as::<B>(encode_spec::<B>(g, w, JsonValue::Bool(b), Type::Boolean), B::spec_bool(w, b)),
{
}

/// A number is written as a float token carrying its value unchanged (the
/// same bit pattern).
pub proof fn law_number_written<B: TokenWriter>(g: Syntax, w: B::V, n: u64)
    ensures
        written_as::<B>(
            encode_spec::<B>(g, w, JsonValue::Number(n), Type::Number),
            B::spec_float(w, n),
        ),
{
}

/// A string is written as a present string token carrying exactly its
/// characters, empty or not.
pub proof fn law_string_written<B: TokenWriter>(g: Syntax, w: B::V, s: String)
    ensures
        written_as::<B>(
            encode_spec::<B>(g, w, JsonValue::String(s), Type::String),
            B::spec_string(w, Some(s@)),
        ),
{
}

/// An array that encodes is written as one list token whose items are the
/// encodings of the array's items, in order, whatever its length.
pub proof fn law_array_written_as_list<B: TokenWriter>(
    g: Syntax,
    w: B::V,
    list: Vec<JsonValue>,
    kind: Type,
)
    ensures
        ({
            let outcome = encode_spec::<B>(g, w, JsonValue::Array(list), Type::Array(Box::new(kind)));
            outcome.1 is Ok ==> exists|states: Seq<B::V>, trees: Seq<<B::Tree as View>::V>|
                #[trigger] items_in_order::<B>(g, list@, kind, states, trees) && states[0] == w
                    && written_as::<B>(outcome, B::spec_list(states[list@.len() as int], trees))
        }),
{
    let outcome = encode_spec::<B>(g, w, JsonValue::Array(list), Type::Array(Box::new(kind)));
    if outcome.1 is Ok {
        let states = lemma_items_in_order::<B>(g, w, list@, kind);
        let trees = encode_items_spec::<B>(g, w, list@, kind).1->Ok_0;
        assert(items_in_order::<B>(g, list@, kind, states, trees) && states[0] == w && written_as::<
            B,
        >(outcome, B::spec_list(states[list@.len() as int], trees)));
    }
}

/// An object that encodes under an anonymous structure type is written as
/// one untagged tuple of the encodings of the structure's fields, in
/// grammar order, each from the member of its name.
pub proof fn law_structure_written_as_tuple<B: TokenWriter>(
    g: Syntax,
    w: B::V,
    value: JsonValue,
    fields: Vec<Field>,
)
    ensures
        ({
            let outcome = encode_spec::<B>(g, w, value, Type::Obj(crate::grammar::Structure { fields }));
            outcome.1 is Ok ==> value is Object && exists|
                states: Seq<B::V>,
                contents: Seq<(Field, <B::Tree as View>::V)>,
            |
                #[trigger] fields_in_order::<B>(
                    g,
                    value->Object_0.entries@,
                    fields@,
                    states,
                    contents,
                ) && states[0] == w && written_as::<B>(
                    outcome,
                    B::spec_untagged_tuple(
                        states[fields@.len() as int],
                        contents.map_values(|c: (Field, <B::Tree as View>::V)| c.1),
                    ),
                )
        }),
{
    let outcome = encode_spec::<B>(g, w, value, Type::Obj(crate::grammar::Structure { fields }));
    if outcome.1 is Ok {
        let entries = value->Object_0.entries@;
        let states = lemma_fields_in_order::<B>(g, w, entries, fields@);
        let contents = encode_fields_spec::<B>(g, w, entries, fields@).1->Ok_0;
        assert(fields_in_order::<B>(g, entries, fields@, states, contents) && states[0] == w
            && written_as::<B>(
            outcome,
            B::spec_untagged_tuple(
                states[fields@.len() as int],
                contents.map_values(|c: (Field, <B::Tree as View>::V)| c.1),
            ),
        ));
    }
}

/// `null`, where the type allows it, is written as the tagged tuple `Null`
/// with no fields.
pub proof fn law_null_node_written<B: TokenWriter>(g: Syntax, w: B::V, names: Vec<String>)
    ensures
        written_as::<B>(
            encode_spec::<B>(g, w, JsonValue::Null, Type::Interfaces { names, or_null: true }),
            B::spec_tagged_tuple(w, "Null"@, Seq::empty()),
        ),
{
}

/// A node that encodes under an interface type (other than an allowed
/// `null`) is an object whose `type` member names an interface of the
/// grammar that refines (or is) one of the expected interfaces. It is
/// written as one tagged tuple whose tag is that name and whose children are
/// the interface's fields, in grammar order, each with the encoding of the
/// member of its name; this holds whatever the expected names are, and
/// however many fields the interface has.
pub proof fn law_interface_node_written_as_tagged_tuple<B: TokenWriter>(
    g: Syntax,
    w: B::V,
    value: JsonValue,
    names: Vec<String>,
    or_null: bool,
)
    ensures
        ({
            let outcome = encode_spec::<B>(g, w, value, Type::Interfaces { names, or_null });
            outcome.1 is Ok && !(or_null && value is Null) ==> value is Object && exists|
                kind: String,
                k: int,
                states: Seq<B::V>,
                contents: Seq<(Field, <B::Tree as View>::V)>,
            |
                #![trigger interface_index(g, kind@), fields_in_order::<B>(g, value->Object_0.entries@, g.interfaces@[k].contents.fields@, states, contents)]
                {
                    let entries = value->Object_0.entries@;
                    let fields = g.interfaces@[k].contents.fields@;
                    &&& member_value(entries, "type"@) == Some(JsonValue::String(kind))
                    &&& interface_index(g, kind@) == Some(k)
                    &&& g.interfaces@[k].name@ == kind@
                    &&& refines_one_of(g.interfaces@[k], names@)
                    &&& fields_in_order::<B>(g, entries, fields, states, contents)
                    &&& states[0] == w
                    &&& written_as::<B>(
                        outcome,
                        B::spec_tagged_tuple(states[fields.len() as int], kind@, contents),
                    )
                }
        }),
{
    let outcome = encode_spec::<B>(g, w, value, Type::Interfaces { names, or_null });
    if outcome.1 is Ok && !(or_null && value is Null) {
        let entries = value->Object_0.entries@;
        lemma_key_index(entries, "type"@);
        let j = key_index_of(entries, "type"@);
        let kind = entries[j].1->String_0;
        crate::grammar::lemma_interface_index(g, kind@);
        let k = interface_index(g, kind@)->Some_0;
        let fields = g.interfaces@[k].contents.fields@;
        let states = lemma_fields_in_order::<B>(g, w, entries, fields);
        let contents = encode_fields_spec::<B>(g, w, entries, fields).1->Ok_0;
        assert(member_value(entries, "type"@) == Some(JsonValue::String(kind)));
        assert(fields_in_order::<B>(g, entries, fields, states, contents));
        assert(written_as::<B>(
            outcome,
            B::spec_tagged_tuple(states[fields.len() as int], kind@, contents),
        ));
    }
}

} // verus!
