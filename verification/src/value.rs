//! Runtime values.

pub mod float;
pub mod function;
pub mod list;
pub mod number;
pub mod render;

use crate::error::{Error, ErrorKind};
use crate::location::Location;
use crate::model::{MethodView, ValueView};
use crate::prelude::run_native;
use crate::semantics;
use crate::state::{outcome_view, State};
use crate::text::str_eq;
use crate::value::float::{float_is_nonzero, NAN_BITS};
use crate::value::function::{
    function_view, names_view, Binding, Function, FunctionVal, NativeFunction,
};
use crate::value::list::{list_view, List};
use crate::value::number::Number;
use std::rc::Rc;
use vstd::prelude::*;

verus! {

/// One entry of an object's method table.
#[derive(Debug)]
pub struct Method {
    pub name: String,
    pub function: Rc<Function>,
}

/// A value of the language. Values never change once made.
#[derive(Debug)]
pub enum Value {
    Atom(String),
    Number(Number),
    String(String),
    List(Rc<List>),
    Function(Rc<Function>),
    Object(Rc<Vec<Method>>),
}

/// The views of a method table.
pub open spec fn methods_view(methods: Seq<Method>) -> Seq<MethodView>
    decreases methods,
{
    Seq::new(
        methods.len(),
        |i: int|
            if 0 <= i < methods.len() {
                MethodView { name: methods[i].name@, function: function_view(*methods[i].function) }
            } else {
                arbitrary()
            },
    )
}

/// The view of a value.
pub open spec fn value_view(value: Value) -> ValueView
    decreases value,
{
    match value {
        Value::Atom(name) => ValueView::Atom(name@),
        Value::Number(n) => ValueView::Number(n),
        Value::String(s) => ValueView::Str(s@),
        Value::List(list) => ValueView::List(list_view(*list)),
        Value::Function(f) => ValueView::Function(function_view(*f)),
        Value::Object(methods) => ValueView::Object(methods_view(methods@)),
    }
}

impl View for Value {
    type V = ValueView;

    open spec fn view(&self) -> ValueView {
        value_view(*self)
    }
}

/// The view of a method table has one entry for each method.
pub proof fn lemma_methods_view(methods: Seq<Method>)
    ensures
        methods_view(methods).len() == methods.len(),
        forall|i: int|
            0 <= i < methods.len() ==> (#[trigger] methods_view(methods)[i]) == (MethodView {
                name: methods[i].name@,
                function: methods[i].function@,
            }),
{
    let views = Seq::new(
        methods.len(),
        |i: int|
            if 0 <= i < methods.len() {
                MethodView { name: methods[i].name@, function: function_view(*methods[i].function) }
            } else {
                arbitrary()
            },
    );
    assert(views.len() == methods.len());
    assert(methods_view(methods) == views);
}

/// The views of a sequence of values.
pub open spec fn values_view(values: Seq<Value>) -> Seq<ValueView> {
    values.map_values(|v: Value| v@)
}

impl Clone for Value {
    /// A copy of the value. Lists, functions and objects are shared, not copied.
    fn clone(&self) -> (r: Value)
        ensures
            r == *self,
    {
        match self {
            Value::Atom(name) => Value::Atom(name.clone()),
            Value::Number(n) => Value::Number(*n),
            Value::String(s) => Value::String(s.clone()),
            Value::List(list) => Value::List(list.clone()),
            Value::Function(f) => Value::Function(f.clone()),
            Value::Object(methods) => Value::Object(methods.clone()),
        }
    }
}

impl Value {
    /// The empty list.
    pub fn nil() -> (r: Value)
        ensures
            r@ == crate::model::nil(),
    {
        Value::List(List::new())
    }

    /// Puts the value into a new variable cell of `abl` and returns the cell.
    /// Whoever holds the cell shares the variable: a write through it is
    /// seen by all.
    pub fn var(self, abl: &mut State) -> (r: usize)
        ensures
            (final(abl)@, r as nat) == semantics::allocate(old(abl)@, self@),
            final(abl).depth_limit() == old(abl).depth_limit(),
    {
        abl.new_cell(self)
    }

    /// The list of the values of `data`.
    pub fn list(data: &[Value]) -> (r: Value)
        ensures
            r@ == ValueView::List(values_view(data@)),
    {
        Value::List(List::from_slice(data))
    }

    /// What this value is as a number: itself where it is one, and the NaN
    /// that stands for "not a number" otherwise.
    pub open spec fn number_of(value: ValueView) -> Number {
        match value {
            ValueView::Number(n) => n,
            _ => Number::Float(NAN_BITS),
        }
    }

    /// Whether this value equals `other`: atoms and strings by their
    /// characters, numbers in the tower, lists item by item. A function or
    /// an object equals nothing.
    pub fn equals(&self, other: &Value) -> (r: bool)
        ensures
            r == crate::prelude::values_equal(self@, other@),
        decreases self@,
    {
        match (self, other) {
            (Value::Atom(x), Value::Atom(y)) => str_eq(x.as_str(), y.as_str()),
            (Value::Number(x), Value::Number(y)) => x.equals(*y),
            (Value::String(x), Value::String(y)) => str_eq(x.as_str(), y.as_str()),
            (Value::List(x), Value::List(y)) => {
                let mut left: Rc<List> = x.clone();
                let mut right: Rc<List> = y.clone();
                let ghost xs = x@;
                let ghost ys = y@;
                let ghost mut done: nat = 0;
                assert(xs.skip(0) =~= xs);
                assert(ys.skip(0) =~= ys);
                loop
                    invariant
                        self@ == ValueView::List(xs),
                        other@ == ValueView::List(ys),
                        done <= xs.len(),
                        done <= ys.len(),
                        left@ == xs.skip(done as int),
                        right@ == ys.skip(done as int),
                        crate::prelude::items_equal(xs, ys, 0) == crate::prelude::items_equal(
                            xs,
                            ys,
                            done,
                        ),
                    decreases xs.len() - done,
                {
                    let (next_left, next_right) = match (left.head(), right.head()) {
                        (Some(a), Some(b)) => {
                            assert(a@ == xs[done as int]);
                            assert(b@ == ys[done as int]);
                            assert(decreases_to!(self@ => self@->List_0));
                            assert(decreases_to!(self@->List_0 => self@->List_0[done as int]));
                            if !a.equals(b) {
                                return false;
                            }
                            (left.tail(), right.tail())
                        },
                        (None, None) => {
                            return true;
                        },
                        _ => {
                            return false;
                        },
                    };
                    proof {
                        assert(xs.skip(done as int).subrange(1, xs.skip(done as int).len() as int)
                            =~= xs.skip(done as int + 1));
                        assert(ys.skip(done as int).subrange(1, ys.skip(done as int).len() as int)
                            =~= ys.skip(done as int + 1));
                        done = done + 1;
                    }
                    left = next_left;
                    right = next_right;
                }
            },
            _ => false,
        }
    }

    /// This value as a number.
    pub fn to_number(&self) -> (r: Number)
        ensures
            r == Value::number_of(self@),
    {
        match self {
            Value::Number(n) => *n,
            _ => Number::Float(NAN_BITS),
        }
    }

    /// Whether the value counts as true: a list where it is not empty, a
    /// number where it is not zero, anything else always.
    pub fn truthy(&self) -> (r: bool)
        ensures
            r == semantics::truthy(self@),
    {
        match self {
            Value::List(list) => !list.is_nil(),
            Value::Number(Number::Int(i)) => *i != 0,
            Value::Number(Number::Float(bits)) => float_is_nonzero(*bits),
            _ => true,
        }
    }

    /// Calls this value on `args`. `loc` is the place of the call, which an
    /// error carries.
    pub fn call(&self, abl: &mut State, args: Rc<List>, loc: &Location) -> (r: Result<Value, Error>)
        ensures
            (final(abl)@, outcome_view(r)) == semantics::call(
                old(abl)@,
                self@,
                args@,
                loc@,
                old(abl).depth_limit(),
            ),
            final(abl).depth_limit() == old(abl).depth_limit(),
    {
        let depth = abl.depth();
        self.call_nested(abl, args, loc, depth)
    }

    /// Calls this value on `args`, where evaluations may still nest `depth` deep.
    pub fn call_nested(&self, abl: &mut State, args: Rc<List>, loc: &Location, depth: usize) -> (r:
        Result<Value, Error>)
        ensures
            (final(abl)@, outcome_view(r)) == semantics::call(
                old(abl)@,
                self@,
                args@,
                loc@,
                depth as nat,
            ),
            final(abl).depth_limit() == old(abl).depth_limit(),
        decreases depth, 4nat, 0nat,
    {
        match self {
            Value::Function(function) => call_function(function, abl, args, depth),
            Value::Object(methods) => {
                match args.head() {
                    Some(Value::Atom(name)) => {
                        match find_method(methods, name.as_str()) {
                            Some(function) => call_function(&function, abl, args.tail(), depth),
                            None => Err(Error::new_at(ErrorKind::NotAFunction, loc.clone())),
                        }
                    },
                    Some(_) => Err(Error::new_at(ErrorKind::BadIndex, loc.clone())),
                    None => Err(Error::new_at(ErrorKind::NotAFunction, loc.clone())),
                }
            },
            _ => Err(Error::new_at(ErrorKind::NotAFunction, loc.clone())),
        }
    }

    /// The value of the native function `func`.
    pub fn native_function(func: NativeFunction) -> (r: Value)
        ensures
            r@ == ValueView::Function(Function::native_view(func)),
    {
        Value::Function(Rc::new(Function::native(func)))
    }
}

/// The method registered under `name`; the latest registration counts.
pub fn find_method(methods: &Vec<Method>, name: &str) -> (r: Option<Rc<Function>>)
    ensures
        match r {
            Some(function) => semantics::find_method(methods_view(methods@), name@) == Some(
                function@,
            ),
            None => semantics::find_method(methods_view(methods@), name@).is_none(),
        },
{
    let mut i: usize = methods.len();
    proof {
        lemma_methods_view(methods@);
        assert(methods_view(methods@).take(i as int) =~= methods_view(methods@));
    }
    while i > 0
        invariant
            i <= methods.len(),
            methods_view(methods@).len() == methods.len(),
            semantics::find_method(methods_view(methods@), name@) == semantics::find_method(
                methods_view(methods@).take(i as int),
                name@,
            ),
        decreases i,
    {
        proof {
            lemma_methods_view(methods@);
            assert(methods_view(methods@).take(i as int).drop_last() =~= methods_view(
                methods@,
            ).take(i as int - 1));
        }
        i -= 1;
        if str_eq(methods[i].name.as_str(), name) {
            return Some(methods[i].function.clone());
        }
    }
    None
}

/// A copy of a sequence of bindings.
pub fn clone_bindings(bindings: &Vec<Binding>) -> (r: Vec<Binding>)
    ensures
        r@ == bindings@,
{
    let mut copy: Vec<Binding> = Vec::new();
    let mut i: usize = 0;
    while i < bindings.len()
        invariant
            i <= bindings.len(),
            copy@ == bindings@.take(i as int),
        decreases bindings.len() - i,
    {
        copy.push(bindings[i].clone());
        assert(copy@ =~= bindings@.take(i as int + 1));
        i += 1;
    }
    assert(bindings@.take(bindings.len() as int) =~= bindings@);
    copy
}

/// Binds each of `params` to its argument in a new cell of the innermost
/// scope. A parameter without an argument is bound to nil.
pub fn bind_parameters(abl: &mut State, params: &Vec<String>, args: &Rc<List>)
    ensures
        final(abl)@ == semantics::bind_parameters_from(
            old(abl)@,
            names_view(params@),
            args@,
            0,
        ),
        final(abl).depth_limit() == old(abl).depth_limit(),
{
    let mut rest: Rc<List> = args.clone();
    let mut i: usize = 0;
    assert(args@.skip(0) =~= args@);
    while i < params.len()
        invariant
            i <= params.len(),
            abl.depth_limit() == old(abl).depth_limit(),
            rest@ == if i <= args@.len() {
                args@.skip(i as int)
            } else {
                Seq::<ValueView>::empty()
            },
            semantics::bind_parameters_from(old(abl)@, names_view(params@), args@, 0)
                == semantics::bind_parameters_from(abl@, names_view(params@), args@, i as nat),
        decreases params.len() - i,
    {
        let value = match rest.head() {
            Some(value) => value.clone(),
            None => Value::nil(),
        };
        abl.set_local(params[i].as_str(), value);
        let next = rest.tail();
        proof {
            if i < args@.len() {
                assert(args@.skip(i as int).subrange(1, args@.skip(i as int).len() as int)
                    =~= args@.skip(i as int + 1));
            }
        }
        rest = next;
        i += 1;
    }
}

/// Calls `function` on `args`: opens a scope with the captured cells, runs
/// the function, and closes the scope again, also after an error.
pub fn call_function(function: &Function, abl: &mut State, args: Rc<List>, depth: usize) -> (r:
    Result<Value, Error>)
    ensures
        (final(abl)@, outcome_view(r)) == semantics::call_function(
            old(abl)@,
            function@,
            args@,
            depth as nat,
        ),
        final(abl).depth_limit() == old(abl).depth_limit(),
    decreases depth, 3nat, 0nat,
{
    abl.push_scope(clone_bindings(&function.captures));
    let res = match &function.val {
        FunctionVal::Native(f) => {
            let values = args.collect();
            run_native(*f, abl, values.as_slice())
        },
        FunctionVal::Lang { actions, args: params } => {
            bind_parameters(abl, params, &args);
            abl.execute_nested(actions.as_slice(), depth)
        },
    };
    abl.pop_scope();
    res
}

} // verus!
