//! The interpreter: the environment of variables and the evaluator.

use crate::action::{actions_view, lemma_actions_view, lemma_actions_view_subrange, Action, ActionVal};
use crate::error::{Error, ErrorKind, ErrorView};
use crate::model::ValueView;
use crate::semantics;
use crate::semantics::{Form, Frame, StateView};
use crate::text::str_eq;
use crate::value::function::{bindings_view, names_view, Binding, Function, NativeFunction};
use crate::value::list::List;
use crate::value::{methods_view, values_view, Method, Value};
use std::rc::Rc;
use vstd::prelude::*;
use vstd::slice::slice_subrange;

verus! {

/// How deep evaluations may nest in an interpreter made by [`State::new`].
pub const DEFAULT_DEPTH: usize = 1024;

/// The state of the interpreter.
pub struct State {
    /// The variable cells. A cell is named by its index.
    cells: Vec<Value>,
    globals: Vec<Binding>,
    /// The open scope frames, the innermost last.
    scope: Vec<Vec<Binding>>,
    /// What was printed and not yet taken out.
    output: Vec<String>,
    /// How deep evaluations may nest.
    depth: usize,
}

/// The frames that a stack of binding lists stands for.
pub open spec fn frames_view(scope: Seq<Vec<Binding>>) -> Seq<Frame> {
    scope.map_values(|frame: Vec<Binding>| bindings_view(frame@))
}

/// The texts of a sequence of strings.
pub open spec fn texts_view(texts: Seq<String>) -> Seq<Seq<char>> {
    texts.map_values(|s: String| s@)
}

impl View for State {
    type V = StateView;

    closed spec fn view(&self) -> StateView {
        StateView {
            cells: values_view(self.cells@),
            globals: bindings_view(self.globals@),
            scope: frames_view(self.scope@),
            output: texts_view(self.output@),
        }
    }
}

/// The cell that `name` is bound to in `bindings`, if it is bound there.
pub fn find_binding(bindings: &Vec<Binding>, name: &str) -> (r: Option<usize>)
    ensures
        match r {
            Some(cell) => bindings_view(bindings@).contains_key(name@) && bindings_view(
                bindings@,
            )[name@] == cell,
            None => !bindings_view(bindings@).contains_key(name@),
        },
{
    let mut i: usize = bindings.len();
    assert(bindings@.take(i as int) =~= bindings@);
    while i > 0
        invariant
            i <= bindings.len(),
            bindings_view(bindings@).contains_key(name@) == bindings_view(
                bindings@.take(i as int),
            ).contains_key(name@),
            bindings_view(bindings@).contains_key(name@) ==> bindings_view(bindings@)[name@]
                == bindings_view(bindings@.take(i as int))[name@],
        decreases i,
    {
        assert(bindings@.take(i as int).drop_last() =~= bindings@.take(i as int - 1));
        i -= 1;
        if str_eq(bindings[i].name.as_str(), name) {
            return Some(bindings[i].cell);
        }
    }
    assert(bindings@.take(0).len() == 0);
    None
}

/// The view of what an evaluation gave: the view of the value or of the error.
pub open spec fn outcome_view(r: Result<Value, Error>) -> Result<ValueView, ErrorView> {
    match r {
        Ok(value) => Ok(value@),
        Err(e) => Err(e@),
    }
}

/// The special form that `name` is reserved for, if it is.
pub fn keyword(name: &str) -> (r: Option<Form>)
    ensures
        r == semantics::form_of(name@),
{
    if str_eq(name, "do") {
        Some(Form::Do)
    } else if str_eq(name, "let") {
        Some(Form::Let)
    } else if str_eq(name, "set") {
        Some(Form::Assign)
    } else if str_eq(name, "if") {
        Some(Form::If)
    } else if str_eq(name, "function") {
        Some(Form::Function)
    } else if str_eq(name, "funcap") {
        Some(Form::Funcap)
    } else if str_eq(name, "object") {
        Some(Form::Object)
    } else {
        None
    }
}

/// The part of `actions` from index `from` on.
pub fn rest_of(actions: &[Action], from: usize) -> (r: &[Action])
    requires
        from <= actions.len(),
    ensures
        r@ == actions@.skip(from as int),
        actions_view(r@) == actions_view(actions@).skip(from as int),
{
    proof {
        lemma_actions_view(actions@);
        lemma_actions_view_subrange(actions@, from as int, actions@.len() as int);
    }
    slice_subrange(actions, from, actions.len())
}

impl State {
    /// How deep evaluations may nest.
    pub closed spec fn depth_limit(&self) -> nat {
        self.depth as nat
    }

    /// An interpreter with nothing defined, in which evaluations may nest
    /// [`DEFAULT_DEPTH`] deep.
    pub fn new() -> (r: State)
        ensures
            r@ == semantics::initial(),
            r.depth_limit() == DEFAULT_DEPTH,
    {
        State::with_depth(DEFAULT_DEPTH)
    }

    /// An interpreter with nothing defined, in which evaluations may nest
    /// `depth` deep.
    pub fn with_depth(depth: usize) -> (r: State)
        ensures
            r@ == semantics::initial(),
            r.depth_limit() == depth,
    {
        let r = State {
            cells: Vec::new(),
            globals: Vec::new(),
            scope: Vec::new(),
            output: Vec::new(),
            depth,
        };
        assert(r@ =~~= semantics::initial());
        r
    }

    /// How deep evaluations may nest.
    pub fn depth(&self) -> (r: usize)
        ensures
            r == self.depth_limit(),
    {
        self.depth
    }

    /// Binds the global `name` to a new cell that holds the native function `f`.
    pub fn register(&mut self, name: &str, f: NativeFunction)
        ensures
            final(self)@ == semantics::register(old(self)@, name@, f),
            final(self).depth_limit() == old(self).depth_limit(),
    {
        let cell = self.cells.len();
        let value = Value::native_function(f);
        self.cells.push(value);
        self.globals.push(Binding { name: name.to_owned(), cell });
        proof {
            assert(self.globals@.drop_last() =~= old(self).globals@);
            assert(values_view(self.cells@) =~= values_view(old(self).cells@).push(value@));
            assert(self@ =~~= semantics::register(old(self)@, name@, f));
        }
    }

    /// Binds every native function to its global name: `debug`, `put-str`
    /// and `print`, `head`, `tail`, `cons`, `+ - * /`, `sqrt`, and
    /// `= != < <= > >=`.
    pub fn reg_prelude(&mut self)
        ensures
            final(self)@ == semantics::with_prelude(old(self)@),
            final(self).depth_limit() == old(self).depth_limit(),
    {
        self.register("debug", NativeFunction::Debug);
        self.register("put-str", NativeFunction::Print);
        self.register("print", NativeFunction::Print);
        self.register("head", NativeFunction::Head);
        self.register("tail", NativeFunction::Tail);
        self.register("cons", NativeFunction::Cons);
        self.register("+", NativeFunction::Add);
        self.register("-", NativeFunction::Sub);
        self.register("*", NativeFunction::Mul);
        self.register("/", NativeFunction::Div);
        self.register("sqrt", NativeFunction::Sqrt);
        self.register("=", NativeFunction::Eq);
        self.register("!=", NativeFunction::Ne);
        self.register("<", NativeFunction::Lt);
        self.register("<=", NativeFunction::Le);
        self.register(">", NativeFunction::Gt);
        self.register(">=", NativeFunction::Ge);
    }

    /// Makes a new cell that holds `value`, bound to no name, and returns it.
    pub fn new_cell(&mut self, value: Value) -> (r: usize)
        ensures
            (final(self)@, r as nat) == semantics::allocate(old(self)@, value@),
            final(self).depth_limit() == old(self).depth_limit(),
    {
        let cell = self.cells.len();
        self.cells.push(value);
        proof {
            assert(values_view(self.cells@) =~= values_view(old(self).cells@).push(value@));
            assert(self@ =~~= semantics::allocate(old(self)@, value@).0);
        }
        cell
    }

    /// The cell that `name` is bound to in the innermost frame that binds it.
    pub fn get_local(&mut self, name: &str) -> (r: Option<usize>)
        ensures
            *final(self) == *old(self),
            r == match semantics::lookup_local(old(self)@.scope, name@) {
                Some(cell) => Some(cell as usize),
                None => None,
            },
            semantics::lookup_local(old(self)@.scope, name@) matches Some(cell) ==> cell
                <= usize::MAX,
    {
        let mut i: usize = self.scope.len();
        assert(self@.scope.take(i as int) =~= self@.scope);
        while i > 0
            invariant
                i <= self.scope.len(),
                *self == *old(self),
                semantics::lookup_local(self@.scope, name@) == semantics::lookup_local(
                    self@.scope.take(i as int),
                    name@,
                ),
            decreases i,
        {
            assert(self@.scope.take(i as int).drop_last() =~= self@.scope.take(i as int - 1));
            i -= 1;
            match find_binding(&self.scope[i], name) {
                Some(cell) => {
                    return Some(cell);
                },
                None => {},
            }
        }
        None
    }

    /// The cell of `name`: the innermost local binding, else the global one.
    /// A name bound nowhere becomes a global bound to a new cell that holds
    /// nil: looking a name up never fails.
    pub fn get_var(&mut self, name: &str) -> (r: usize)
        ensures
            (final(self)@, r as nat) == semantics::get_var(old(self)@, name@),
            final(self).depth_limit() == old(self).depth_limit(),
    {
        match self.get_local(name) {
            Some(cell) => cell,
            None => match find_binding(&self.globals, name) {
                Some(cell) => cell,
                None => {
                    let cell = self.cells.len();
                    self.cells.push(Value::nil());
                    self.globals.push(Binding { name: name.to_owned(), cell });
                    proof {
                        assert(self.globals@.drop_last() =~= old(self).globals@);
                        assert(values_view(self.cells@) =~= values_view(old(self).cells@).push(
                            crate::model::nil(),
                        ));
                        assert(self@ =~~= semantics::get_var(old(self)@, name@).0);
                    }
                    cell
                },
            },
        }
    }

    /// Binds `name` to a new cell that holds `value`, in the innermost frame
    /// or, where no frame is open, in the global table.
    pub fn set_local(&mut self, name: &str, value: Value)
        ensures
            final(self)@ == semantics::set_local(old(self)@, name@, value@),
            final(self).depth_limit() == old(self).depth_limit(),
    {
        let cell = self.cells.len();
        self.cells.push(value);
        let binding = Binding { name: name.to_owned(), cell };
        let n = self.scope.len();
        if n > 0 {
            let mut frame: Vec<Binding> = Vec::new();
            std::mem::swap(&mut frame, &mut self.scope[n - 1]);
            frame.push(binding);
            self.scope.set(n - 1, frame);
            proof {
                assert(frame@.drop_last() =~= old(self).scope@[n - 1]@);
                assert(values_view(self.cells@) =~= values_view(old(self).cells@).push(value@));
                assert(frames_view(self.scope@) =~= frames_view(old(self).scope@).update(
                    n - 1,
                    frames_view(old(self).scope@).last().insert(name@, cell as nat),
                ));
                assert(self@ =~~= semantics::set_local(old(self)@, name@, value@));
            }
        } else {
            self.globals.push(binding);
            proof {
                assert(self.globals@.drop_last() =~= old(self).globals@);
                assert(values_view(self.cells@) =~= values_view(old(self).cells@).push(value@));
                assert(self@ =~~= semantics::set_local(old(self)@, name@, value@));
            }
        }
    }

    /// What `cell` holds; nil where the store has no such cell.
    pub fn read(&self, cell: usize) -> (r: Value)
        ensures
            r@ == semantics::read(self@, cell as nat),
    {
        if cell < self.cells.len() {
            self.cells[cell].clone()
        } else {
            Value::nil()
        }
    }

    /// Puts `value` into `cell`. Every scope and every function that refers
    /// to the cell sees the new value. Where the store has no such cell,
    /// nothing changes.
    pub fn write(&mut self, cell: usize, value: Value)
        ensures
            final(self)@ == semantics::write(old(self)@, cell as nat, value@),
            final(self).depth_limit() == old(self).depth_limit(),
    {
        if cell < self.cells.len() {
            self.cells.set(cell, value);
            proof {
                assert(values_view(self.cells@) =~= values_view(old(self).cells@).update(
                    cell as int,
                    value@,
                ));
                assert(self@ =~~= semantics::write(old(self)@, cell as nat, value@));
            }
        }
    }

    /// Opens a scope that starts out with the bindings of `frame`.
    pub fn push_scope(&mut self, frame: Vec<Binding>)
        ensures
            final(self)@ == semantics::push_scope(old(self)@, bindings_view(frame@)),
            final(self).depth_limit() == old(self).depth_limit(),
    {
        self.scope.push(frame);
        proof {
            assert(frames_view(self.scope@) =~= frames_view(old(self).scope@).push(
                bindings_view(frame@),
            ));
            assert(self@ =~~= semantics::push_scope(old(self)@, bindings_view(frame@)));
        }
    }

    /// Closes the innermost scope. With no scope open, nothing changes.
    pub fn pop_scope(&mut self)
        ensures
            final(self)@ == semantics::pop_scope(old(self)@),
            final(self).depth_limit() == old(self).depth_limit(),
    {
        let popped = self.scope.pop();
        proof {
            if old(self).scope@.len() > 0 {
                assert(frames_view(self.scope@) =~= frames_view(old(self).scope@).drop_last());
            }
            assert(self@ =~~= semantics::pop_scope(old(self)@));
        }
    }

    /// Records `text` as printed.
    pub fn emit(&mut self, text: String)
        ensures
            final(self)@ == semantics::emit(old(self)@, text@),
            final(self).depth_limit() == old(self).depth_limit(),
    {
        self.output.push(text);
        proof {
            assert(texts_view(self.output@) =~= texts_view(old(self).output@).push(text@));
            assert(self@ =~~= semantics::emit(old(self)@, text@));
        }
    }

    /// Hands out what was printed since the last call, in order, and forgets it.
    pub fn take_output(&mut self) -> (r: Vec<String>)
        ensures
            texts_view(r@) == old(self)@.output,
            final(self)@ == (StateView { output: Seq::empty(), ..old(self)@ }),
            final(self).depth_limit() == old(self).depth_limit(),
    {
        let mut out: Vec<String> = Vec::new();
        std::mem::swap(&mut out, &mut self.output);
        proof {
            assert(self@ =~~= (StateView { output: Seq::empty(), ..old(self)@ }));
        }
        out
    }
}

impl State {
    /// Runs `actions` in order and returns the value of the last one, or nil
    /// where there is none. The first error ends the run and is returned.
    pub fn execute(&mut self, actions: &[Action]) -> (r: Result<Value, Error>)
        ensures
            (final(self)@, outcome_view(r)) == semantics::execute(
                old(self)@,
                actions_view(actions@),
                old(self).depth_limit(),
            ),
            final(self).depth_limit() == old(self).depth_limit(),
    {
        let depth = self.depth;
        self.execute_nested(actions, depth)
    }

    /// Runs `actions` in order, where evaluations may still nest `depth` deep.
    pub fn execute_nested(&mut self, actions: &[Action], depth: usize) -> (r: Result<Value, Error>)
        ensures
            (final(self)@, outcome_view(r)) == semantics::execute(
                old(self)@,
                actions_view(actions@),
                depth as nat,
            ),
            final(self).depth_limit() == old(self).depth_limit(),
        decreases depth, 2nat, 0nat,
    {
        let mut ret = Value::nil();
        let mut i: usize = 0;
        proof {
            lemma_actions_view(actions@);
            assert(actions_view(actions@).skip(0) =~= actions_view(actions@));
        }
        while i < actions.len()
            invariant
                i <= actions.len(),
                actions_view(actions@).len() == actions.len(),
                self.depth_limit() == old(self).depth_limit(),
                semantics::execute(old(self)@, actions_view(actions@), depth as nat)
                    == semantics::execute_from(
                    self@,
                    ret@,
                    actions_view(actions@).skip(i as int),
                    depth as nat,
                ),
            decreases actions.len() - i,
        {
            proof {
                lemma_actions_view(actions@);
                assert(actions_view(actions@).skip(i as int).skip(1) =~= actions_view(
                    actions@,
                ).skip(i as int + 1));
            }
            match self.eval(&actions[i], depth) {
                Ok(value) => {
                    ret = value;
                },
                Err(e) => {
                    return Err(e);
                },
            }
            i += 1;
        }
        Ok(ret)
    }

    /// Evaluates `actions` from left to right and makes a list of their values.
    pub fn eval_list(&mut self, actions: &[Action], depth: usize) -> (r: Result<Rc<List>, Error>)
        ensures
            semantics::eval_list_from(
                old(self)@,
                Seq::empty(),
                actions_view(actions@),
                depth as nat,
            ) == (
                final(self)@,
                match r {
                    Ok(list) => Ok(list@),
                    Err(e) => Err(e@),
                },
            ),
            r is Ok ==> r->Ok_0@.len() == actions.len(),
            final(self).depth_limit() == old(self).depth_limit(),
        decreases depth, 1nat, actions.len(),
    {
        let mut values: Vec<Value> = Vec::new();
        let mut i: usize = 0;
        proof {
            lemma_actions_view(actions@);
            assert(actions_view(actions@).skip(0) =~= actions_view(actions@));
            assert(values_view(values@) =~= Seq::empty());
        }
        while i < actions.len()
            invariant
                i <= actions.len(),
                values.len() == i,
                actions_view(actions@).len() == actions.len(),
                self.depth_limit() == old(self).depth_limit(),
                semantics::eval_list_from(
                    old(self)@,
                    Seq::empty(),
                    actions_view(actions@),
                    depth as nat,
                ) == semantics::eval_list_from(
                    self@,
                    values_view(values@),
                    actions_view(actions@).skip(i as int),
                    depth as nat,
                ),
            decreases actions.len() - i,
        {
            proof {
                lemma_actions_view(actions@);
                assert(actions_view(actions@).skip(i as int).skip(1) =~= actions_view(
                    actions@,
                ).skip(i as int + 1));
            }
            match self.eval(&actions[i], depth) {
                Ok(value) => {
                    let ghost before = values@;
                    values.push(value);
                    assert(values_view(values@) =~= values_view(before).push(value@));
                },
                Err(e) => {
                    return Err(e);
                },
            }
            i += 1;
        }
        Ok(List::from_slice(values.as_slice()))
    }

    /// Evaluates `action`, where evaluations may still nest `depth` deep.
    pub fn eval(&mut self, action: &Action, depth: usize) -> (r: Result<Value, Error>)
        ensures
            (final(self)@, outcome_view(r)) == semantics::eval(old(self)@, action@, depth as nat),
            final(self).depth_limit() == old(self).depth_limit(),
        decreases depth, 0nat, 0nat,
    {
        if depth == 0 {
            return Err(Error::new_at(ErrorKind::TooDeep, action.location.clone()));
        }
        let inner = depth - 1;
        match &action.val {
            ActionVal::Literal(value) => Ok(value.clone()),
            ActionVal::Ident(name) => {
                let cell = self.get_var(name.as_str());
                Ok(self.read(cell))
            },
            ActionVal::Group { content, quoted } => {
                proof {
                    lemma_actions_view(content@);
                }
                if *quoted {
                    match self.eval_list(content.as_slice(), inner) {
                        Ok(list) => Ok(Value::List(list)),
                        Err(e) => Err(e),
                    }
                } else if content.len() == 0 {
                    Ok(Value::nil())
                } else {
                    let form = match &content[0].val {
                        ActionVal::Ident(name) => keyword(name.as_str()),
                        _ => None,
                    };
                    match form {
                        Some(Form::Do) => self.execute_nested(rest_of(content.as_slice(), 1), inner),
                        Some(Form::Let) => self.process_let_content(
                            rest_of(content.as_slice(), 1),
                            inner,
                        ),
                        Some(Form::Assign) => self.process_set_content(
                            rest_of(content.as_slice(), 1),
                            inner,
                        ),
                        Some(Form::If) => {
                            if content.len() == 4 {
                                match self.eval(&content[1], inner) {
                                    Ok(condition) => {
                                        if condition.truthy() {
                                            self.eval(&content[2], inner)
                                        } else {
                                            self.eval(&content[3], inner)
                                        }
                                    },
                                    Err(e) => Err(e),
                                }
                            } else {
                                Err(Error::new_at(ErrorKind::Syntax, content[0].location.clone()))
                            }
                        },
                        Some(Form::Function) => self.define_function(content.as_slice()),
                        Some(Form::Funcap) => self.define_funcap(content.as_slice()),
                        Some(Form::Object) => self.make_object(content.as_slice()),
                        None => {
                            match self.eval_list(content.as_slice(), inner) {
                                Ok(data) => {
                                    let callee = match data.head() {
                                        Some(value) => value.clone(),
                                        None => Value::nil(),
                                    };
                                    let args = data.tail();
                                    callee.call_nested(self, args, &content[0].location, inner)
                                },
                                Err(e) => Err(e),
                            }
                        },
                    }
                }
            },
        }
    }

    /// The rest of a `let` form: binds each name to the value of its
    /// expression, or to nil, in the innermost scope.
    pub fn process_let_content(&mut self, content: &[Action], depth: usize) -> (r: Result<
        Value,
        Error,
    >)
        ensures
            (final(self)@, outcome_view(r)) == semantics::let_content(
                old(self)@,
                actions_view(content@),
                depth as nat,
            ),
            final(self).depth_limit() == old(self).depth_limit(),
        decreases depth, 1nat, content.len(),
    {
        proof {
            lemma_actions_view(content@);
        }
        if content.len() == 0 {
            return Ok(Value::nil());
        }
        match &content[0].val {
            ActionVal::Ident(name) => {
                let value = if content.len() >= 2 {
                    match self.eval(&content[1], depth) {
                        Ok(value) => value,
                        Err(e) => {
                            return Err(e);
                        },
                    }
                } else {
                    Value::nil()
                };
                self.set_local(name.as_str(), value.clone());
                if content.len() > 2 {
                    self.process_let_content(rest_of(content, 2), depth)
                } else {
                    Ok(value)
                }
            },
            _ => Err(Error::new_at(ErrorKind::Syntax, content[0].location.clone())),
        }
    }

    /// The rest of a `set` form: writes each value to the cell that its name
    /// refers to.
    pub fn process_set_content(&mut self, content: &[Action], depth: usize) -> (r: Result<
        Value,
        Error,
    >)
        ensures
            (final(self)@, outcome_view(r)) == semantics::set_content(
                old(self)@,
                actions_view(content@),
                depth as nat,
            ),
            final(self).depth_limit() == old(self).depth_limit(),
        decreases depth, 1nat, content.len(),
    {
        proof {
            lemma_actions_view(content@);
        }
        if content.len() == 0 {
            return Ok(Value::nil());
        }
        match &content[0].val {
            ActionVal::Ident(name) => {
                let value = if content.len() >= 2 {
                    match self.eval(&content[1], depth) {
                        Ok(value) => value,
                        Err(e) => {
                            return Err(e);
                        },
                    }
                } else {
                    Value::nil()
                };
                let cell = self.get_var(name.as_str());
                self.write(cell, value.clone());
                if content.len() > 2 {
                    self.process_set_content(rest_of(content, 2), depth)
                } else {
                    Ok(value)
                }
            },
            _ => Err(Error::new_at(ErrorKind::Syntax, content[0].location.clone())),
        }
    }

    /// The `function` form, given with its keyword: makes a function without
    /// captures, binds it to its name in the innermost scope and returns it.
    pub fn define_function(&mut self, content: &[Action]) -> (r: Result<Value, Error>)
        requires
            content.len() > 0,
        ensures
            (final(self)@, outcome_view(r)) == semantics::define_function(
                old(self)@,
                actions_view(content@),
            ),
            final(self).depth_limit() == old(self).depth_limit(),
    {
        proof {
            lemma_actions_view(content@);
        }
        if content.len() < 4 {
            return Err(Error::new_at(ErrorKind::Syntax, content[0].location.clone()));
        }
        let name = match &content[1].val {
            ActionVal::Ident(name) => name,
            _ => {
                return Err(Error::new_at(ErrorKind::Syntax, content[1].location.clone()));
            },
        };
        let params = match &content[2].val {
            ActionVal::Group { content: params, .. } => params,
            _ => {
                return Err(Error::new_at(ErrorKind::Syntax, content[2].location.clone()));
            },
        };
        match State::create_function(params.as_slice(), rest_of(content, 3)) {
            Ok(function) => {
                let function = Value::Function(Rc::new(function));
                self.set_local(name.as_str(), function.clone());
                Ok(function)
            },
            Err(e) => Err(e),
        }
    }

    /// The `funcap` form, given with its keyword: as `function`, but the
    /// function keeps the cell that each captured name refers to here and now.
    pub fn define_funcap(&mut self, content: &[Action]) -> (r: Result<Value, Error>)
        requires
            content.len() > 0,
        ensures
            (final(self)@, outcome_view(r)) == semantics::define_funcap(
                old(self)@,
                actions_view(content@),
            ),
            final(self).depth_limit() == old(self).depth_limit(),
    {
        proof {
            lemma_actions_view(content@);
        }
        if content.len() < 5 {
            return Err(Error::new_at(ErrorKind::Syntax, content[0].location.clone()));
        }
        let name = match &content[1].val {
            ActionVal::Ident(name) => name,
            _ => {
                return Err(Error::new_at(ErrorKind::Syntax, content[1].location.clone()));
            },
        };
        let params = match &content[2].val {
            ActionVal::Group { content: params, .. } => params,
            _ => {
                return Err(Error::new_at(ErrorKind::Syntax, content[2].location.clone()));
            },
        };
        let names = match &content[3].val {
            ActionVal::Group { content: names, .. } => names,
            _ => {
                return Err(Error::new_at(ErrorKind::Syntax, content[3].location.clone()));
            },
        };
        match State::create_function(params.as_slice(), rest_of(content, 4)) {
            Ok(function) => {
                let captures = self.capture(names.as_slice());
                let function = Function { val: function.val, captures };
                let function = Value::Function(Rc::new(function));
                self.set_local(name.as_str(), function.clone());
                Ok(function)
            },
            Err(e) => Err(e),
        }
    }

    /// The current cell of each identifier among `names`, from left to
    /// right. What is no identifier is passed over.
    pub fn capture(&mut self, names: &[Action]) -> (r: Vec<Binding>)
        ensures
            (final(self)@, bindings_view(r@)) == semantics::capture_from(
                old(self)@,
                Map::empty(),
                actions_view(names@),
            ),
            final(self).depth_limit() == old(self).depth_limit(),
    {
        let mut captures: Vec<Binding> = Vec::new();
        let mut i: usize = 0;
        proof {
            lemma_actions_view(names@);
            assert(actions_view(names@).skip(0) =~= actions_view(names@));
        }
        while i < names.len()
            invariant
                i <= names.len(),
                actions_view(names@).len() == names.len(),
                self.depth_limit() == old(self).depth_limit(),
                semantics::capture_from(old(self)@, Map::empty(), actions_view(names@))
                    == semantics::capture_from(
                    self@,
                    bindings_view(captures@),
                    actions_view(names@).skip(i as int),
                ),
            decreases names.len() - i,
        {
            proof {
                lemma_actions_view(names@);
                assert(actions_view(names@).skip(i as int).skip(1) =~= actions_view(names@).skip(
                    i as int + 1,
                ));
            }
            match &names[i].val {
                ActionVal::Ident(name) => {
                    let cell = self.get_var(name.as_str());
                    let ghost before = captures@;
                    captures.push(Binding { name: name.clone(), cell });
                    assert(captures@.drop_last() =~= before);
                },
                _ => {},
            }
            i += 1;
        }
        captures
    }

    /// The `object` form, given with its keyword: the object whose methods
    /// are those identifiers after the keyword whose variables hold functions.
    pub fn make_object(&mut self, content: &[Action]) -> (r: Result<Value, Error>)
        requires
            content.len() > 0,
        ensures
            (final(self)@, outcome_view(r)) == semantics::make_object(
                old(self)@,
                actions_view(content@),
            ),
            final(self).depth_limit() == old(self).depth_limit(),
    {
        let names = rest_of(content, 1);
        let mut methods: Vec<Method> = Vec::new();
        let mut i: usize = 0;
        proof {
            lemma_actions_view(names@);
            assert(actions_view(names@).skip(0) =~= actions_view(names@));
            assert(methods_view(methods@) =~= Seq::empty());
        }
        while i < names.len()
            invariant
                i <= names.len(),
                actions_view(names@).len() == names.len(),
                self.depth_limit() == old(self).depth_limit(),
                semantics::methods_from(old(self)@, Seq::empty(), actions_view(names@))
                    == semantics::methods_from(
                    self@,
                    methods_view(methods@),
                    actions_view(names@).skip(i as int),
                ),
            decreases names.len() - i,
        {
            proof {
                lemma_actions_view(names@);
                assert(actions_view(names@).skip(i as int).skip(1) =~= actions_view(names@).skip(
                    i as int + 1,
                ));
            }
            match &names[i].val {
                ActionVal::Ident(name) => {
                    let cell = self.get_var(name.as_str());
                    match self.read(cell) {
                        Value::Function(function) => {
                            let ghost before = methods@;
                            methods.push(Method { name: name.clone(), function });
                            proof {
                                crate::value::lemma_methods_view(before);
                                crate::value::lemma_methods_view(methods@);
                                assert(methods_view(methods@) =~= methods_view(before).push(
                                    crate::model::MethodView { name: name@, function: function@ },
                                ));
                            }
                        },
                        _ => {},
                    }
                },
                _ => {},
            }
            i += 1;
        }
        Ok(Value::Object(Rc::new(methods)))
    }

    /// The function with the formal parameters `raw_args`, each of which
    /// must be an identifier, and the body `actions`.
    pub fn create_function(raw_args: &[Action], actions: &[Action]) -> (r: Result<Function, Error>)
        ensures
            match r {
                Ok(function) => semantics::parameters(actions_view(raw_args@)) == Ok::<
                    Seq<Seq<char>>,
                    ErrorView,
                >(names_view(function.val->Lang_args@)) && function@
                    == semantics::lang_function(
                    actions_view(actions@),
                    names_view(function.val->Lang_args@),
                    Map::empty(),
                ),
                Err(e) => semantics::parameters(actions_view(raw_args@)) == Err::<
                    Seq<Seq<char>>,
                    ErrorView,
                >(e@),
            },
    {
        let mut args: Vec<String> = Vec::new();
        let mut i: usize = 0;
        proof {
            lemma_actions_view(raw_args@);
            assert(actions_view(raw_args@).skip(0) =~= actions_view(raw_args@));
            assert(names_view(args@) =~= Seq::empty());
        }
        while i < raw_args.len()
            invariant
                i <= raw_args.len(),
                actions_view(raw_args@).len() == raw_args.len(),
                semantics::parameters(actions_view(raw_args@)) == semantics::parameters_from(
                    names_view(args@),
                    actions_view(raw_args@).skip(i as int),
                ),
            decreases raw_args.len() - i,
        {
            proof {
                lemma_actions_view(raw_args@);
                assert(actions_view(raw_args@).skip(i as int).skip(1) =~= actions_view(
                    raw_args@,
                ).skip(i as int + 1));
            }
            match &raw_args[i].val {
                ActionVal::Ident(name) => {
                    let ghost before = args@;
                    args.push(name.clone());
                    assert(names_view(args@) =~= names_view(before).push(name@));
                },
                _ => {
                    return Err(Error::new_at(ErrorKind::Syntax, raw_args[i].location.clone()));
                },
            }
            i += 1;
        }
        Ok(Function::lang(actions, args))
    }
}

} // verus!
