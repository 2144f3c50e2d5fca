//! The meaning of programs, as functions on views.
//!
//! The state of the interpreter is a store of variable cells, a global table
//! and a stack of scope frames, each a map from names to cells. Evaluation is
//! a function from a state and an action to a new state and a result. It
//! takes a bound on the nesting of evaluations, so that it is defined on
//! every program: where the bound is reached, the result is an error.

use crate::error::{error_at, ErrorKindView, ErrorView};
use crate::location::LocationView;
use crate::model::{nil, ActionValView, ActionView, FunctionValView, FunctionView, MethodView, ValueView};
use crate::prelude::native;
use crate::value::float::is_zero;
use crate::value::number::Number;
use vstd::prelude::*;

verus! {

/// A scope frame: the cell of each name bound in it.
pub type Frame = Map<Seq<char>, nat>;

/// The view of the interpreter's state.
#[verifier::ext_equal]
pub struct StateView {
    /// The contents of the variable cells. A cell is named by its index, and
    /// no cell is ever taken away.
    pub cells: Seq<ValueView>,
    /// The global table.
    pub globals: Frame,
    /// The scope frames that are open, the innermost last.
    pub scope: Seq<Frame>,
    /// The texts printed so far.
    pub output: Seq<Seq<char>>,
}

/// A new state together with a value or an error.
pub type Outcome = (StateView, Result<ValueView, ErrorView>);

/// The state before anything has run.
pub open spec fn initial() -> StateView {
    StateView { cells: Seq::empty(), globals: Map::empty(), scope: Seq::empty(), output: Seq::empty() }
}

/// The cell that `name` is bound to in the innermost frame that binds it.
pub open spec fn lookup_local(scope: Seq<Frame>, name: Seq<char>) -> Option<nat>
    decreases scope.len(),
{
    if scope.len() == 0 {
        None
    } else if scope.last().contains_key(name) {
        Some(scope.last()[name])
    } else {
        lookup_local(scope.drop_last(), name)
    }
}

/// The state with a new cell that holds `value`, and that cell.
pub open spec fn allocate(st: StateView, value: ValueView) -> (StateView, nat) {
    (StateView { cells: st.cells.push(value), ..st }, st.cells.len())
}

/// The cell of `name`: the innermost local binding, else the global one. A
/// name bound nowhere becomes a global bound to a new cell that holds nil.
pub open spec fn get_var(st: StateView, name: Seq<char>) -> (StateView, nat) {
    match lookup_local(st.scope, name) {
        Some(cell) => (st, cell),
        None => if st.globals.contains_key(name) {
            (st, st.globals[name])
        } else {
            (
                StateView {
                    cells: st.cells.push(nil()),
                    globals: st.globals.insert(name, st.cells.len()),
                    ..st
                },
                st.cells.len(),
            )
        },
    }
}

/// Binds `name` to `cell` in the innermost frame, or in the global table
/// where no frame is open.
pub open spec fn bind(st: StateView, name: Seq<char>, cell: nat) -> StateView {
    if st.scope.len() > 0 {
        StateView {
            scope: st.scope.update(st.scope.len() - 1, st.scope.last().insert(name, cell)),
            ..st
        }
    } else {
        StateView { globals: st.globals.insert(name, cell), ..st }
    }
}

/// Binds `name` to a new cell that holds `value`, in the innermost frame or,
/// where no frame is open, in the global table.
pub open spec fn set_local(st: StateView, name: Seq<char>, value: ValueView) -> StateView {
    bind(allocate(st, value).0, name, st.cells.len())
}

/// What `cell` holds. A cell that the store does not have reads as nil.
pub open spec fn read(st: StateView, cell: nat) -> ValueView {
    if cell < st.cells.len() {
        st.cells[cell as int]
    } else {
        nil()
    }
}

/// The state in which `cell` holds `value`. Writing to a cell that the store
/// does not have changes nothing.
pub open spec fn write(st: StateView, cell: nat, value: ValueView) -> StateView {
    if cell < st.cells.len() {
        StateView { cells: st.cells.update(cell as int, value), ..st }
    } else {
        st
    }
}

/// The state with `frame` opened as the innermost scope.
pub open spec fn push_scope(st: StateView, frame: Frame) -> StateView {
    StateView { scope: st.scope.push(frame), ..st }
}

/// The state with the innermost scope closed.
pub open spec fn pop_scope(st: StateView) -> StateView {
    if st.scope.len() > 0 {
        StateView { scope: st.scope.drop_last(), ..st }
    } else {
        st
    }
}

/// The state after `text` was printed.
pub open spec fn emit(st: StateView, text: Seq<char>) -> StateView {
    StateView { output: st.output.push(text), ..st }
}

/// The state with the native function `f` bound to the global `name`, in a
/// new cell.
pub open spec fn register(st: StateView, name: Seq<char>, f: crate::value::function::NativeFunction) -> StateView {
    StateView {
        cells: st.cells.push(ValueView::Function(crate::value::function::Function::native_view(f))),
        globals: st.globals.insert(name, st.cells.len()),
        ..st
    }
}

/// The state with every native function bound to its global name.
pub open spec fn with_prelude(st: StateView) -> StateView {
    let s = register(st, "debug"@, crate::value::function::NativeFunction::Debug);
    let s = register(s, "put-str"@, crate::value::function::NativeFunction::Print);
    let s = register(s, "print"@, crate::value::function::NativeFunction::Print);
    let s = register(s, "head"@, crate::value::function::NativeFunction::Head);
    let s = register(s, "tail"@, crate::value::function::NativeFunction::Tail);
    let s = register(s, "cons"@, crate::value::function::NativeFunction::Cons);
    let s = register(s, "+"@, crate::value::function::NativeFunction::Add);
    let s = register(s, "-"@, crate::value::function::NativeFunction::Sub);
    let s = register(s, "*"@, crate::value::function::NativeFunction::Mul);
    let s = register(s, "/"@, crate::value::function::NativeFunction::Div);
    let s = register(s, "sqrt"@, crate::value::function::NativeFunction::Sqrt);
    let s = register(s, "="@, crate::value::function::NativeFunction::Eq);
    let s = register(s, "!="@, crate::value::function::NativeFunction::Ne);
    let s = register(s, "<"@, crate::value::function::NativeFunction::Lt);
    let s = register(s, "<="@, crate::value::function::NativeFunction::Le);
    let s = register(s, ">"@, crate::value::function::NativeFunction::Gt);
    register(s, ">="@, crate::value::function::NativeFunction::Ge)
}

/// The special forms.
#[derive(Clone, Copy, Debug, PartialEq, Eq, Structural)]
pub enum Form {
    Do,
    Let,
    /// The form `set`.
    Assign,
    If,
    Function,
    Funcap,
    Object,
}

/// The special form that `name` is reserved for, if it is.
pub open spec fn form_of(name: Seq<char>) -> Option<Form> {
    if name == "do"@ {
        Some(Form::Do)
    } else if name == "let"@ {
        Some(Form::Let)
    } else if name == "set"@ {
        Some(Form::Assign)
    } else if name == "if"@ {
        Some(Form::If)
    } else if name == "function"@ {
        Some(Form::Function)
    } else if name == "funcap"@ {
        Some(Form::Funcap)
    } else if name == "object"@ {
        Some(Form::Object)
    } else {
        None
    }
}

/// The special form that a group with `first` as its first child is.
pub open spec fn special_form(first: ActionView) -> Option<Form> {
    match first.val {
        ActionValView::Ident(name) => form_of(name),
        _ => None,
    }
}

/// Whether a value counts as true: a list where it is not empty, a number
/// where it is not zero, anything else always.
pub open spec fn truthy(value: ValueView) -> bool {
    match value {
        ValueView::List(items) => items.len() > 0,
        ValueView::Number(Number::Int(i)) => i != 0,
        ValueView::Number(Number::Float(bits)) => !is_zero(bits),
        _ => true,
    }
}

/// A syntax error at the place of `action`.
pub open spec fn syntax_error(action: ActionView) -> ErrorView {
    error_at(ErrorKindView::Syntax, action.location)
}

/// The names of the formal parameters `params`, after `names`; each must be
/// an identifier, and the first that is not gives a syntax error at its place.
pub open spec fn parameters_from(names: Seq<Seq<char>>, params: Seq<ActionView>) -> Result<
    Seq<Seq<char>>,
    ErrorView,
>
    decreases params.len(),
{
    if params.len() == 0 {
        Ok(names)
    } else {
        match params[0].val {
            ActionValView::Ident(name) => parameters_from(names.push(name), params.skip(1)),
            _ => Err(syntax_error(params[0])),
        }
    }
}

/// The names of the formal parameters `params`.
pub open spec fn parameters(params: Seq<ActionView>) -> Result<Seq<Seq<char>>, ErrorView> {
    parameters_from(Seq::empty(), params)
}

/// Adds to `captures` the current cell of each identifier among `names`,
/// from left to right. What is no identifier is passed over.
pub open spec fn capture_from(st: StateView, captures: Frame, names: Seq<ActionView>) -> (
    StateView,
    Frame,
)
    decreases names.len(),
{
    if names.len() == 0 {
        (st, captures)
    } else {
        match names[0].val {
            ActionValView::Ident(name) => {
                let (s1, cell) = get_var(st, name);
                capture_from(s1, captures.insert(name, cell), names.skip(1))
            },
            _ => capture_from(st, captures, names.skip(1)),
        }
    }
}

/// Adds to `methods` each identifier among `names` whose variable holds a
/// function, from left to right. Anything else is passed over.
pub open spec fn methods_from(st: StateView, methods: Seq<MethodView>, names: Seq<ActionView>) -> (
    StateView,
    Seq<MethodView>,
)
    decreases names.len(),
{
    if names.len() == 0 {
        (st, methods)
    } else {
        match names[0].val {
            ActionValView::Ident(name) => {
                let (s1, cell) = get_var(st, name);
                match read(s1, cell) {
                    ValueView::Function(function) => methods_from(
                        s1,
                        methods.push(MethodView { name, function }),
                        names.skip(1),
                    ),
                    _ => methods_from(s1, methods, names.skip(1)),
                }
            },
            _ => methods_from(st, methods, names.skip(1)),
        }
    }
}

/// The function registered under `name`; the latest registration counts.
pub open spec fn find_method(methods: Seq<MethodView>, name: Seq<char>) -> Option<FunctionView>
    decreases methods.len(),
{
    if methods.len() == 0 {
        None
    } else if methods.last().name == name {
        Some(methods.last().function)
    } else {
        find_method(methods.drop_last(), name)
    }
}

/// Binds the parameters from number `from` on to their arguments, each in a
/// new cell of the innermost frame. A parameter without an argument is nil.
pub open spec fn bind_parameters_from(
    st: StateView,
    params: Seq<Seq<char>>,
    args: Seq<ValueView>,
    from: nat,
) -> StateView
    decreases params.len() - from,
{
    if from >= params.len() {
        st
    } else {
        let value = if from < args.len() {
            args[from as int]
        } else {
            nil()
        };
        bind_parameters_from(set_local(st, params[from as int], value), params, args, from + 1)
    }
}

/// The view of a function written in the language.
pub open spec fn lang_function(
    actions: Seq<ActionView>,
    args: Seq<Seq<char>>,
    captures: Frame,
) -> FunctionView {
    FunctionView { val: FunctionValView::Lang { actions, args }, captures }
}

/// The `function` form: `(function name (param ...) body ...)`. It binds the
/// name to a function without captures, and returns the function.
pub open spec fn define_function(st: StateView, content: Seq<ActionView>) -> Outcome {
    if content.len() < 4 {
        (st, Err(syntax_error(content[0])))
    } else {
        match content[1].val {
            ActionValView::Ident(name) => match content[2].val {
                ActionValView::Group { content: params, quoted } => match parameters(params) {
                    Ok(args) => {
                        let function = ValueView::Function(
                            lang_function(content.skip(3), args, Map::empty()),
                        );
                        (set_local(st, name, function), Ok(function))
                    },
                    Err(e) => (st, Err(e)),
                },
                _ => (st, Err(syntax_error(content[2]))),
            },
            _ => (st, Err(syntax_error(content[1]))),
        }
    }
}

/// The `funcap` form: `(funcap name (param ...) (capture ...) body ...)`.
/// As `function`, but the function made keeps, for each captured name, the
/// cell that the name refers to where the form is evaluated.
pub open spec fn define_funcap(st: StateView, content: Seq<ActionView>) -> Outcome {
    if content.len() < 5 {
        (st, Err(syntax_error(content[0])))
    } else {
        match content[1].val {
            ActionValView::Ident(name) => match content[2].val {
                ActionValView::Group { content: params, quoted } => match content[3].val {
                    ActionValView::Group { content: names, quoted } => match parameters(params) {
                        Ok(args) => {
                            let (s1, captures) = capture_from(st, Map::empty(), names);
                            let function = ValueView::Function(
                                lang_function(content.skip(4), args, captures),
                            );
                            (set_local(s1, name, function), Ok(function))
                        },
                        Err(e) => (st, Err(e)),
                    },
                    _ => (st, Err(syntax_error(content[3]))),
                },
                _ => (st, Err(syntax_error(content[2]))),
            },
            _ => (st, Err(syntax_error(content[1]))),
        }
    }
}

/// The `object` form: `(object name ...)`.
pub open spec fn make_object(st: StateView, content: Seq<ActionView>) -> Outcome {
    let (s1, methods) = methods_from(st, Seq::empty(), content.skip(1));
    (s1, Ok(ValueView::Object(methods)))
}

/// Evaluates `action`. Evaluations may nest `depth` deep.
pub open spec fn eval(st: StateView, action: ActionView, depth: nat) -> Outcome
    decreases depth, 0nat, 0nat,
{
    if depth == 0 {
        (st, Err(error_at(ErrorKindView::TooDeep, action.location)))
    } else {
        let inner = (depth - 1) as nat;
        match action.val {
            ActionValView::Literal(value) => (st, Ok(value)),
            ActionValView::Ident(name) => {
                let (s1, cell) = get_var(st, name);
                (s1, Ok(read(s1, cell)))
            },
            ActionValView::Group { content, quoted } => if quoted {
                let (s1, r) = eval_list_from(st, Seq::empty(), content, inner);
                match r {
                    Ok(items) => (s1, Ok(ValueView::List(items))),
                    Err(e) => (s1, Err(e)),
                }
            } else if content.len() == 0 {
                (st, Ok(nil()))
            } else {
                match special_form(content[0]) {
                    Some(Form::Do) => execute(st, content.skip(1), inner),
                    Some(Form::Let) => let_content(st, content.skip(1), inner),
                    Some(Form::Assign) => set_content(st, content.skip(1), inner),
                    Some(Form::If) => if content.len() == 4 {
                        let (s1, r) = eval(st, content[1], inner);
                        match r {
                            Ok(condition) => if truthy(condition) {
                                eval(s1, content[2], inner)
                            } else {
                                eval(s1, content[3], inner)
                            },
                            Err(e) => (s1, Err(e)),
                        }
                    } else {
                        (st, Err(syntax_error(content[0])))
                    },
                    Some(Form::Function) => define_function(st, content),
                    Some(Form::Funcap) => define_funcap(st, content),
                    Some(Form::Object) => make_object(st, content),
                    None => {
                        let (s1, r) = eval_list_from(st, Seq::empty(), content, inner);
                        match r {
                            Ok(items) => call(
                                s1,
                                items[0],
                                items.skip(1),
                                content[0].location,
                                inner,
                            ),
                            Err(e) => (s1, Err(e)),
                        }
                    },
                }
            },
        }
    }
}

/// Evaluates `actions` from left to right and adds their values to `items`.
/// The first error ends the evaluation.
pub open spec fn eval_list_from(
    st: StateView,
    items: Seq<ValueView>,
    actions: Seq<ActionView>,
    depth: nat,
) -> (StateView, Result<Seq<ValueView>, ErrorView>)
    decreases depth, 1nat, actions.len(),
{
    if actions.len() == 0 {
        (st, Ok(items))
    } else {
        let (s1, r) = eval(st, actions[0], depth);
        match r {
            Ok(value) => eval_list_from(s1, items.push(value), actions.skip(1), depth),
            Err(e) => (s1, Err(e)),
        }
    }
}

/// Evaluates `actions` in order, after an action whose value was `last`.
/// The value is that of the last action; the first error ends it.
pub open spec fn execute_from(
    st: StateView,
    last: ValueView,
    actions: Seq<ActionView>,
    depth: nat,
) -> Outcome
    decreases depth, 1nat, actions.len(),
{
    if actions.len() == 0 {
        (st, Ok(last))
    } else {
        let (s1, r) = eval(st, actions[0], depth);
        match r {
            Ok(value) => execute_from(s1, value, actions.skip(1), depth),
            Err(e) => (s1, Err(e)),
        }
    }
}

/// Evaluates `actions` in order. The value is that of the last action, and
/// nil where there is none.
pub open spec fn execute(st: StateView, actions: Seq<ActionView>, depth: nat) -> Outcome
    decreases depth, 2nat, 0nat,
{
    execute_from(st, nil(), actions, depth)
}

/// The rest of a `let` form: `name expr? (name expr?)*`. Each name is bound
/// to a new cell in the innermost scope that holds the value of its
/// expression, or nil. The value is that of the last binding.
pub open spec fn let_content(st: StateView, content: Seq<ActionView>, depth: nat) -> Outcome
    decreases depth, 1nat, content.len(),
{
    if content.len() == 0 {
        (st, Ok(nil()))
    } else {
        match content[0].val {
            ActionValView::Ident(name) => {
                let (s1, r) = if content.len() >= 2 {
                    eval(st, content[1], depth)
                } else {
                    (st, Ok(nil()))
                };
                match r {
                    Ok(value) => {
                        let s2 = set_local(s1, name, value);
                        if content.len() > 2 {
                            let_content(s2, content.skip(2), depth)
                        } else {
                            (s2, Ok(value))
                        }
                    },
                    Err(e) => (s1, Err(e)),
                }
            },
            _ => (st, Err(syntax_error(content[0]))),
        }
    }
}

/// The rest of a `set` form, which has the shape of a `let`. Each value is
/// written to the cell that its name refers to; a name bound nowhere becomes
/// a global.
pub open spec fn set_content(st: StateView, content: Seq<ActionView>, depth: nat) -> Outcome
    decreases depth, 1nat, content.len(),
{
    if content.len() == 0 {
        (st, Ok(nil()))
    } else {
        match content[0].val {
            ActionValView::Ident(name) => {
                let (s1, r) = if content.len() >= 2 {
                    eval(st, content[1], depth)
                } else {
                    (st, Ok(nil()))
                };
                match r {
                    Ok(value) => {
                        let (s2, cell) = get_var(s1, name);
                        let s3 = write(s2, cell, value);
                        if content.len() > 2 {
                            set_content(s3, content.skip(2), depth)
                        } else {
                            (s3, Ok(value))
                        }
                    },
                    Err(e) => (s1, Err(e)),
                }
            },
            _ => (st, Err(syntax_error(content[0]))),
        }
    }
}

/// Calls the function `function` on `args`: opens a scope with the captured
/// cells, runs the function, and closes the scope whatever came of it.
pub open spec fn call_function(
    st: StateView,
    function: FunctionView,
    args: Seq<ValueView>,
    depth: nat,
) -> Outcome
    decreases depth, 3nat, 0nat,
{
    let s1 = push_scope(st, function.captures);
    let (s2, r) = match function.val {
        FunctionValView::Native(f) => native(f, s1, args),
        FunctionValView::Lang { actions, args: params } => execute(
            bind_parameters_from(s1, params, args, 0),
            actions,
            depth,
        ),
    };
    (pop_scope(s2), r)
}

/// Calls `callee` on `args`. A function is called. An object takes the name
/// of a method as its first argument, an atom, and the method is called on
/// the rest. Nothing else can be called.
pub open spec fn call(
    st: StateView,
    callee: ValueView,
    args: Seq<ValueView>,
    location: LocationView,
    depth: nat,
) -> Outcome
    decreases depth, 4nat, 0nat,
{
    match callee {
        ValueView::Function(function) => call_function(st, function, args, depth),
        ValueView::Object(methods) => if args.len() == 0 {
            (st, Err(error_at(ErrorKindView::NotAFunction, location)))
        } else {
            match args[0] {
                ValueView::Atom(name) => match find_method(methods, name) {
                    Some(function) => call_function(st, function, args.skip(1), depth),
                    None => (st, Err(error_at(ErrorKindView::NotAFunction, location))),
                },
                _ => (st, Err(error_at(ErrorKindView::BadIndex, location))),
            }
        },
        _ => (st, Err(error_at(ErrorKindView::NotAFunction, location))),
    }
}

} // verus!
