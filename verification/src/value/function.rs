//! Functions: native routines and functions written in the language.

use crate::action::{actions_view, clone_actions, Action};
use crate::model::{FunctionValView, FunctionView};
use vstd::prelude::*;

verus! {

/// A routine that the interpreter provides. It receives the interpreter and
/// the evaluated arguments.
#[derive(Clone, Copy, Debug, PartialEq, Eq, Structural)]
pub enum NativeFunction {
    Debug,
    Print,
    Head,
    Tail,
    Cons,
    Add,
    Sub,
    Mul,
    Div,
    Sqrt,
    Eq,
    Ne,
    Lt,
    Le,
    Gt,
    Ge,
}

/// A name bound to a variable cell.
#[derive(Debug)]
pub struct Binding {
    pub name: String,
    pub cell: usize,
}

impl Clone for Binding {
    fn clone(&self) -> (r: Binding)
        ensures
            r == *self,
    {
        Binding { name: self.name.clone(), cell: self.cell }
    }
}

/// The map from names to cells that a sequence of bindings stands for. A
/// later binding of a name replaces an earlier one.
pub open spec fn bindings_view(bindings: Seq<Binding>) -> Map<Seq<char>, nat>
    decreases bindings.len(),
{
    if bindings.len() == 0 {
        Map::empty()
    } else {
        bindings_view(bindings.drop_last()).insert(
            bindings.last().name@,
            bindings.last().cell as nat,
        )
    }
}

/// The names of a sequence of strings.
pub open spec fn names_view(names: Seq<String>) -> Seq<Seq<char>> {
    names.map_values(|s: String| s@)
}

/// A function value.
#[derive(Debug)]
pub struct Function {
    pub val: FunctionVal,
    /// The cells captured when the function was made, by name.
    pub captures: Vec<Binding>,
}

/// What a function runs when it is called.
#[derive(Debug)]
pub enum FunctionVal {
    Native(NativeFunction),
    Lang { actions: Vec<Action>, args: Vec<String> },
}

/// The view of a function.
pub open spec fn function_view(f: Function) -> FunctionView
    decreases f,
{
    FunctionView {
        val: match f.val {
            FunctionVal::Native(native) => FunctionValView::Native(native),
            FunctionVal::Lang { actions, args } => FunctionValView::Lang {
                actions: actions_view(actions@),
                args: names_view(args@),
            },
        },
        captures: bindings_view(f.captures@),
    }
}

impl View for Function {
    type V = FunctionView;

    open spec fn view(&self) -> FunctionView {
        function_view(*self)
    }
}

impl Function {
    /// The view of the native function `func` with no captures.
    pub open spec fn native_view(func: NativeFunction) -> FunctionView {
        FunctionView { val: FunctionValView::Native(func), captures: Map::empty() }
    }

    /// The native function `func`, with no captures.
    pub fn native(func: NativeFunction) -> (r: Function)
        ensures
            r@ == Function::native_view(func),
    {
        Function { val: FunctionVal::Native(func), captures: Vec::new() }
    }

    /// The function with the parameters `args` and the body `actions`, with
    /// no captures.
    pub fn lang(actions: &[Action], args: Vec<String>) -> (r: Function)
        ensures
            r@ == (FunctionView {
                val: FunctionValView::Lang {
                    actions: actions_view(actions@),
                    args: names_view(args@),
                },
                captures: Map::empty(),
            }),
    {
        Function {
            val: FunctionVal::Lang { actions: clone_actions(actions), args },
            captures: Vec::new(),
        }
    }
}

} // verus!
