//! Laws of the language, proved of the semantics.

use crate::location::LocationView;
use crate::model::{ActionValView, ActionView, FunctionValView, FunctionView, MethodView, ValueView};
use crate::prelude::{debug_from, native, print_from};
use crate::semantics;
use crate::semantics::{
    bind_parameters_from, call, call_function, capture_from, eval,
    eval_list_from, execute, execute_from, get_var, let_content, lookup_local,
    methods_from, parameters, pop_scope, push_scope, read, set_content, set_local, special_form,
    truthy, Form, Frame, StateView,
};
use crate::value::function::NativeFunction;
use vstd::prelude::*;

verus! {

/// What every evaluation keeps of the state it starts from: the number of
/// open scopes, every frame but the innermost with all its bindings, and
/// every cell there was.
pub open spec fn frames_kept(before: StateView, after: StateView) -> bool {
    &&& after.scope.len() == before.scope.len()
    &&& forall|i: int| 0 <= i < before.scope.len() - 1 ==> after.scope[i] == before.scope[i]
    &&& before.cells.len() <= after.cells.len()
}

/// Printing keeps the scopes and the cells.
pub proof fn lemma_debug_keeps(st: StateView, args: Seq<ValueView>, from: nat)
    ensures
        debug_from(st, args, from).scope == st.scope,
        debug_from(st, args, from).cells == st.cells,
        debug_from(st, args, from).globals == st.globals,
    decreases args.len() - from,
{
    if from < args.len() {
        lemma_debug_keeps(
            crate::semantics::emit(st, crate::value::render::repr(args[from as int]) + "\n"@),
            args,
            from + 1,
        );
    }
}

/// Printing keeps the scopes and the cells.
pub proof fn lemma_print_keeps(st: StateView, args: Seq<ValueView>, from: nat)
    ensures
        print_from(st, args, from).scope == st.scope,
        print_from(st, args, from).cells == st.cells,
        print_from(st, args, from).globals == st.globals,
    decreases args.len() - from,
{
    if from < args.len() {
        lemma_print_keeps(
            crate::semantics::emit(st, crate::value::render::display(args[from as int])),
            args,
            from + 1,
        );
    }
}

/// A native function changes nothing but what was printed.
pub proof fn lemma_native_keeps(f: NativeFunction, st: StateView, args: Seq<ValueView>)
    ensures
        native(f, st, args).0.scope == st.scope,
        native(f, st, args).0.cells == st.cells,
        native(f, st, args).0.globals == st.globals,
        native(f, st, args).1 is Ok,
{
    lemma_debug_keeps(st, args, 0);
    lemma_print_keeps(st, args, 0);
}

/// Capturing names opens and closes no scope and takes no cell away.
pub proof fn lemma_capture_keeps(st: StateView, captures: Frame, names: Seq<ActionView>)
    ensures
        capture_from(st, captures, names).0.scope == st.scope,
        st.cells.len() <= capture_from(st, captures, names).0.cells.len(),
    decreases names.len(),
{
    if names.len() > 0 {
        match names[0].val {
            ActionValView::Ident(name) => {
                let (s1, cell) = get_var(st, name);
                lemma_capture_keeps(s1, captures.insert(name, cell), names.skip(1));
            },
            _ => {
                lemma_capture_keeps(st, captures, names.skip(1));
            },
        }
    }
}

/// Collecting methods opens and closes no scope and takes no cell away.
pub proof fn lemma_methods_keep(st: StateView, methods: Seq<MethodView>, names: Seq<ActionView>)
    ensures
        methods_from(st, methods, names).0.scope == st.scope,
        st.cells.len() <= methods_from(st, methods, names).0.cells.len(),
    decreases names.len(),
{
    if names.len() > 0 {
        match names[0].val {
            ActionValView::Ident(name) => {
                let (s1, cell) = get_var(st, name);
                match read(s1, cell) {
                    ValueView::Function(function) => {
                        lemma_methods_keep(
                            s1,
                            methods.push(MethodView { name, function }),
                            names.skip(1),
                        );
                    },
                    _ => {
                        lemma_methods_keep(s1, methods, names.skip(1));
                    },
                }
            },
            _ => {
                lemma_methods_keep(st, methods, names.skip(1));
            },
        }
    }
}

/// Binding parameters touches the innermost frame only.
pub proof fn lemma_bind_keeps(
    st: StateView,
    params: Seq<Seq<char>>,
    args: Seq<ValueView>,
    from: nat,
)
    ensures
        frames_kept(st, bind_parameters_from(st, params, args, from)),
    decreases params.len() - from,
{
    if from < params.len() {
        let value = if from < args.len() {
            args[from as int]
        } else {
            crate::model::nil()
        };
        lemma_bind_keeps(set_local(st, params[from as int], value), params, args, from + 1);
    }
}

/// Evaluating an action keeps every frame but the innermost.
pub proof fn lemma_eval_keeps(st: StateView, action: ActionView, depth: nat)
    ensures
        frames_kept(st, eval(st, action, depth).0),
    decreases depth, 0nat, 0nat,
{
    if depth > 0 {
        let inner = (depth - 1) as nat;
        match action.val {
            ActionValView::Literal(_) => {},
            ActionValView::Ident(_) => {},
            ActionValView::Group { content, quoted } => {
                if quoted {
                    lemma_eval_list_keeps(st, Seq::empty(), content, inner);
                } else if content.len() > 0 {
                    match special_form(content[0]) {
                        Some(Form::Do) => {
                            lemma_execute_keeps(st, content.skip(1), inner);
                        },
                        Some(Form::Let) => {
                            lemma_let_keeps(st, content.skip(1), inner);
                        },
                        Some(Form::Assign) => {
                            lemma_set_keeps(st, content.skip(1), inner);
                        },
                        Some(Form::If) => {
                            if content.len() == 4 {
                                lemma_eval_keeps(st, content[1], inner);
                                let (s1, r) = eval(st, content[1], inner);
                                match r {
                                    Ok(condition) => {
                                        if truthy(condition) {
                                            lemma_eval_keeps(s1, content[2], inner);
                                        } else {
                                            lemma_eval_keeps(s1, content[3], inner);
                                        }
                                    },
                                    Err(_) => {},
                                }
                            }
                        },
                        Some(Form::Function) => {},
                        Some(Form::Funcap) => {
                            if content.len() >= 5 {
                                match content[3].val {
                                    ActionValView::Group { content: names, quoted } => {
                                        lemma_capture_keeps(st, Map::empty(), names);
                                    },
                                    _ => {},
                                }
                            }
                        },
                        Some(Form::Object) => {
                            lemma_methods_keep(st, Seq::empty(), content.skip(1));
                        },
                        None => {
                            lemma_eval_list_keeps(st, Seq::empty(), content, inner);
                            let (s1, r) = eval_list_from(st, Seq::empty(), content, inner);
                            match r {
                                Ok(items) => {
                                    lemma_call_keeps(
                                        s1,
                                        items[0],
                                        items.skip(1),
                                        content[0].location,
                                        inner,
                                    );
                                },
                                Err(_) => {},
                            }
                        },
                    }
                }
            },
        }
    }
}

/// Evaluating a sequence of actions into a list keeps every frame but the
/// innermost.
pub proof fn lemma_eval_list_keeps(
    st: StateView,
    items: Seq<ValueView>,
    actions: Seq<ActionView>,
    depth: nat,
)
    ensures
        frames_kept(st, eval_list_from(st, items, actions, depth).0),
    decreases depth, 1nat, actions.len(),
{
    if actions.len() > 0 {
        lemma_eval_keeps(st, actions[0], depth);
        let (s1, r) = eval(st, actions[0], depth);
        match r {
            Ok(value) => {
                lemma_eval_list_keeps(s1, items.push(value), actions.skip(1), depth);
            },
            Err(_) => {},
        }
    }
}

/// Running actions in order keeps every frame but the innermost.
pub proof fn lemma_execute_from_keeps(
    st: StateView,
    last: ValueView,
    actions: Seq<ActionView>,
    depth: nat,
)
    ensures
        frames_kept(st, execute_from(st, last, actions, depth).0),
    decreases depth, 1nat, actions.len(),
{
    if actions.len() > 0 {
        lemma_eval_keeps(st, actions[0], depth);
        let (s1, r) = eval(st, actions[0], depth);
        match r {
            Ok(value) => {
                lemma_execute_from_keeps(s1, value, actions.skip(1), depth);
            },
            Err(_) => {},
        }
    }
}

/// Running a program keeps every frame but the innermost: whatever it
/// binds, it binds in the innermost scope or in the global table.
pub proof fn lemma_execute_keeps(st: StateView, actions: Seq<ActionView>, depth: nat)
    ensures
        frames_kept(st, execute(st, actions, depth).0),
    decreases depth, 2nat, 0nat,
{
    lemma_execute_from_keeps(st, crate::model::nil(), actions, depth);
}

/// A `let` keeps every frame but the innermost.
pub proof fn lemma_let_keeps(st: StateView, content: Seq<ActionView>, depth: nat)
    ensures
        frames_kept(st, let_content(st, content, depth).0),
    decreases depth, 1nat, content.len(),
{
    if content.len() > 0 {
        match content[0].val {
            ActionValView::Ident(name) => {
                if content.len() >= 2 {
                    lemma_eval_keeps(st, content[1], depth);
                }
                let (s1, r) = if content.len() >= 2 {
                    eval(st, content[1], depth)
                } else {
                    (st, Ok(crate::model::nil()))
                };
                match r {
                    Ok(value) => {
                        if content.len() > 2 {
                            lemma_let_keeps(set_local(s1, name, value), content.skip(2), depth);
                        }
                    },
                    Err(_) => {},
                }
            },
            _ => {},
        }
    }
}

/// A `set` keeps every frame: it binds nothing but a global that was unbound.
pub proof fn lemma_set_keeps(st: StateView, content: Seq<ActionView>, depth: nat)
    ensures
        frames_kept(st, set_content(st, content, depth).0),
    decreases depth, 1nat, content.len(),
{
    if content.len() > 0 {
        match content[0].val {
            ActionValView::Ident(name) => {
                if content.len() >= 2 {
                    lemma_eval_keeps(st, content[1], depth);
                }
                let (s1, r) = if content.len() >= 2 {
                    eval(st, content[1], depth)
                } else {
                    (st, Ok(crate::model::nil()))
                };
                match r {
                    Ok(value) => {
                        let (s2, cell) = get_var(s1, name);
                        if content.len() > 2 {
                            lemma_set_keeps(semantics::write(s2, cell, value), content.skip(2), depth);
                        }
                    },
                    Err(_) => {},
                }
            },
            _ => {},
        }
    }
}

/// A call of a function leaves the scopes exactly as they were, whether it
/// returns a value or an error: what the body bound with `let`, and the
/// parameters, are gone when the call is over. No cell is taken away.
pub proof fn lemma_call_function_keeps(
    st: StateView,
    function: FunctionView,
    args: Seq<ValueView>,
    depth: nat,
)
    ensures
        call_function(st, function, args, depth).0.scope == st.scope,
        st.cells.len() <= call_function(st, function, args, depth).0.cells.len(),
    decreases depth, 3nat, 0nat,
{
    let s1 = push_scope(st, function.captures);
    let s2 = match function.val {
        FunctionValView::Native(f) => {
            lemma_native_keeps(f, s1, args);
            native(f, s1, args).0
        },
        FunctionValView::Lang { actions, args: params } => {
            lemma_bind_keeps(s1, params, args, 0);
            lemma_execute_keeps(bind_parameters_from(s1, params, args, 0), actions, depth);
            execute(bind_parameters_from(s1, params, args, 0), actions, depth).0
        },
    };
    assert(pop_scope(s2).scope =~= st.scope);
}

/// A call leaves the scopes exactly as they were, whatever is called and
/// whatever comes of it.
pub proof fn lemma_call_keeps(
    st: StateView,
    callee: ValueView,
    args: Seq<ValueView>,
    location: LocationView,
    depth: nat,
)
    ensures
        call(st, callee, args, location, depth).0.scope == st.scope,
        st.cells.len() <= call(st, callee, args, location, depth).0.cells.len(),
    decreases depth, 4nat, 0nat,
{
    match callee {
        ValueView::Function(function) => {
            lemma_call_function_keeps(st, function, args, depth);
        },
        ValueView::Object(methods) => {
            if args.len() > 0 {
                match args[0] {
                    ValueView::Atom(name) => {
                        match crate::semantics::find_method(methods, name) {
                            Some(function) => {
                                lemma_call_function_keeps(st, function, args.skip(1), depth);
                            },
                            None => {},
                        }
                    },
                    _ => {},
                }
            }
        },
        _ => {},
    }
}

/// A name that a scope binds to a cell of the store is looked up without any
/// change of the state, and writing to its cell is seen by every later look
/// at that cell, from whatever scope or captured frame it is reached.
pub proof fn lemma_write_reaches_cell(st: StateView, name: Seq<char>, value: ValueView)
    requires
        lookup_local(st.scope, name) matches Some(cell) && cell < st.cells.len(),
    ensures
        get_var(st, name).0 == st,
        read(semantics::write(st, get_var(st, name).1, value), get_var(st, name).1) == value,
        semantics::write(st, get_var(st, name).1, value).scope == st.scope,
        semantics::write(st, get_var(st, name).1, value).globals == st.globals,
        forall|other: nat|
            other != get_var(st, name).1 ==> read(
                semantics::write(st, get_var(st, name).1, value),
                other,
            ) == read(st, other),
{
}

/// Inside a call, a captured name refers to the cell that was captured: the
/// function reads what that cell holds when it is called, not what it held
/// when the function was made.
pub proof fn lemma_captured_name_resolves(st: StateView, function: FunctionView, name: Seq<char>)
    requires
        function.captures.contains_key(name),
    ensures
        get_var(push_scope(st, function.captures), name) == (
            push_scope(st, function.captures),
            function.captures[name],
        ),
        read(push_scope(st, function.captures), function.captures[name]) == read(
            st,
            function.captures[name],
        ),
{
    let inside = push_scope(st, function.captures);
    assert(inside.scope.last() == function.captures);
}

/// A capture list of one name captures the cell that the name refers to
/// where the function is made.
pub proof fn lemma_capture_takes_the_cell(st: StateView, name: ActionView)
    requires
        name.val is Ident,
    ensures
        capture_from(st, Map::empty(), seq![name]) == (
            get_var(st, name.val->Ident_0).0,
            Map::<Seq<char>, nat>::empty().insert(name.val->Ident_0, get_var(st, name.val->Ident_0).1),
        ),
{
    reveal_with_fuel(capture_from, 2);
    assert(seq![name][0] == name);
    assert(seq![name].skip(1).len() == 0);
}

/// An `if` evaluates its condition and then exactly one of its branches, in
/// the state that the condition left: the other branch is not evaluated.
pub proof fn lemma_if_takes_one_branch(st: StateView, action: ActionView, depth: nat)
    requires
        depth > 0,
        action.val matches ActionValView::Group { content, quoted } && !quoted && content.len() == 4
            && special_form(content[0]) == Some(Form::If),
    ensures
        ({
            let content = action.val->Group_content;
            let inner = (depth - 1) as nat;
            let (s1, r) = eval(st, content[1], inner);
            eval(st, action, depth) == match r {
                Ok(condition) => if truthy(condition) {
                    eval(s1, content[2], inner)
                } else {
                    eval(s1, content[3], inner)
                },
                Err(e) => (s1, Err(e)),
            }
        }),
{
}

} // verus!
