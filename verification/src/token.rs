//! The interface of token writers, which build the encoded form of a tree,
//! and a writer that builds token trees in memory.
use vstd::prelude::*;

use crate::grammar::Field;

verus! {

/// The view of a writer's result: the tree by its view, the error as is.
pub open spec fn written<T: View, E>(r: Result<T, E>) -> Result<T::V, E> {
    match r {
        Ok(t) => Ok(t@),
        Err(e) => Err(e),
    }
}

/// The views of a sequence of trees.
pub open spec fn tree_views<T: View>(s: Seq<T>) -> Seq<T::V> {
    s.map_values(|t: T| t@)
}

/// The views of the fields of a node with their trees.
pub open spec fn field_views<T: View>(s: Seq<(&Field, T)>) -> Seq<(Field, T::V)> {
    s.map_values(|c: (&Field, T)| (*c.0, c.1@))
}

/// Build a tree of tokens.
///
/// A writer is a deterministic state machine over its view: what each call
/// returns (a tree taken by its view, or an error), and the view of the
/// writer after the call, are a function of the writer's view before the
/// call and of the call's arguments. The `spec_*` functions name that
/// function for each call; each implementation defines them.
pub trait TokenWriter: View + Sized {
    /// The trees that the writer builds.
    type Tree: View;

    /// The errors that the writer reports.
    type Error;

    /// State and result after `list(items)`.
    spec fn spec_list(state: Self::V, items: Seq<<Self::Tree as View>::V>) -> (
        Self::V,
        Result<<Self::Tree as View>::V, Self::Error>,
    );

    /// State and result after `untagged_tuple(children)`.
    spec fn spec_untagged_tuple(state: Self::V, children: Seq<<Self::Tree as View>::V>) -> (
        Self::V,
        Result<<Self::Tree as View>::V, Self::Error>,
    );

    /// State and result after `tagged_tuple(tag, children)`.
    spec fn spec_tagged_tuple(
        state: Self::V,
        tag: Seq<char>,
        children: Seq<(Field, <Self::Tree as View>::V)>,
    ) -> (Self::V, Result<<Self::Tree as View>::V, Self::Error>);

    /// State and result after `string(data)`.
    spec fn spec_string(state: Self::V, data: Option<Seq<char>>) -> (
        Self::V,
        Result<<Self::Tree as View>::V, Self::Error>,
    );

    /// State and result after `bool(data)`.
    spec fn spec_bool(state: Self::V, data: bool) -> (
        Self::V,
        Result<<Self::Tree as View>::V, Self::Error>,
    );

    /// State and result after `float(data)`.
    spec fn spec_float(state: Self::V, data: u64) -> (
        Self::V,
        Result<<Self::Tree as View>::V, Self::Error>,
    );

    /// Write a list of trees, whose length is written too.
    fn list(&mut self, items: Vec<Self::Tree>) -> (r: Result<Self::Tree, Self::Error>)
        ensures
            (final(self)@, written(r)) == Self::spec_list(old(self)@, tree_views(items@)),
    ;

    /// Write a tuple whose arity the grammar determines.
    fn untagged_tuple(&mut self, children: &[Self::Tree]) -> (r: Result<Self::Tree, Self::Error>)
        ensures
            (final(self)@, written(r)) == Self::spec_untagged_tuple(
                old(self)@,
                tree_views(children@),
            ),
    ;

    /// Write a node of the given kind, with its fields.
    fn tagged_tuple(&mut self, tag: &str, children: &[(&Field, Self::Tree)]) -> (r: Result<
        Self::Tree,
        Self::Error,
    >)
        ensures
            (final(self)@, written(r)) == Self::spec_tagged_tuple(
                old(self)@,
                tag@,
                field_views(children@),
            ),
    ;

    /// Write a string, or the absence of one.
    fn string(&mut self, data: Option<&str>) -> (r: Result<Self::Tree, Self::Error>)
        ensures
            (final(self)@, written(r)) == Self::spec_string(
                old(self)@,
                match data {
                    Some(s) => Some(s@),
                    None => None,
                },
            ),
    ;

    /// Write a boolean.
    fn bool(&mut self, data: bool) -> (r: Result<Self::Tree, Self::Error>)
        ensures
            (final(self)@, written(r)) == Self::spec_bool(old(self)@, data),
    ;

    /// Write a number, given as the IEEE 754 binary64 bit pattern of its value.
    fn float(&mut self, data: u64) -> (r: Result<Self::Tree, Self::Error>)
        ensures
            (final(self)@, written(r)) == Self::spec_float(old(self)@, data),
    ;
}

} // verus!
