//! The mathematical views of values, functions and actions.
//!
//! A value in memory holds strings, vectors and shared pointers. Its view
//! holds sequences and maps, and is what every contract speaks of.

use crate::location::LocationView;
use crate::value::function::NativeFunction;
use crate::value::number::Number;
use vstd::prelude::*;

verus! {

/// The view of a value.
pub enum ValueView {
    /// A symbol, by its name.
    Atom(Seq<char>),
    Number(Number),
    /// A string, by its characters.
    Str(Seq<char>),
    /// A list, by its items in order.
    List(Seq<ValueView>),
    Function(FunctionView),
    /// An object, by its methods in the order in which they were registered.
    Object(Seq<MethodView>),
}

/// The view of one entry of an object's method table.
pub struct MethodView {
    pub name: Seq<char>,
    pub function: FunctionView,
}

/// The view of a function: what it runs, and the cells that it captured.
pub struct FunctionView {
    pub val: FunctionValView,
    /// For each captured name, the cell that it refers to.
    pub captures: Map<Seq<char>, nat>,
}

/// The view of what a function runs.
pub enum FunctionValView {
    Native(NativeFunction),
    Lang { actions: Seq<ActionView>, args: Seq<Seq<char>> },
}

/// The view of an action.
pub struct ActionView {
    pub val: ActionValView,
    pub location: LocationView,
}

/// The view of what an action is.
pub enum ActionValView {
    Ident(Seq<char>),
    Literal(ValueView),
    Group { content: Seq<ActionView>, quoted: bool },
}

/// The empty list, which is this language's nil.
pub open spec fn nil() -> ValueView {
    ValueView::List(Seq::empty())
}

} // verus!
