//! The native functions: what programs can call without defining it.
//!
//! Each takes the interpreter and the evaluated arguments. None of them can
//! fail. Truth values are the numbers 1 and 0.

use crate::error::Error;
use crate::model::{nil, ValueView};
use crate::semantics;
use crate::semantics::{Outcome, StateView};
use crate::state::{outcome_view, State};
use crate::value::float::{float_sqrt, ieee_sqrt, FloatOrder, ONE_BITS};
use crate::value::function::NativeFunction;
use crate::value::list::List;
use crate::value::number::Number;
use crate::value::render::{display, repr};
use crate::value::{values_view, Value};
use std::rc::Rc;
use vstd::prelude::*;
use vstd::string::StringExecFns;

verus! {

/// The number that stands for a truth value.
pub open spec fn truth(b: bool) -> ValueView {
    ValueView::Number(
        Number::Int(
            if b {
                1
            } else {
                0
            },
        ),
    )
}

/// The number that stands for a truth value.
pub fn truth_value(b: bool) -> (r: Value)
    ensures
        r@ == truth(b),
{
    Value::Number(
        Number::Int(
            if b {
                1
            } else {
                0
            },
        ),
    )
}

/// The state after `debug` printed the arguments from number `from` on:
/// the structural text of each, and a line end after it.
pub open spec fn debug_from(st: StateView, args: Seq<ValueView>, from: nat) -> StateView
    decreases args.len() - from,
{
    if from >= args.len() {
        st
    } else {
        debug_from(semantics::emit(st, repr(args[from as int]) + "\n"@), args, from + 1)
    }
}

/// The state after `print` printed the arguments from number `from` on:
/// the text of each, with nothing between them.
pub open spec fn print_from(st: StateView, args: Seq<ValueView>, from: nat) -> StateView
    decreases args.len() - from,
{
    if from >= args.len() {
        st
    } else {
        print_from(semantics::emit(st, display(args[from as int])), args, from + 1)
    }
}

/// What `head` returns: the first item of a list, nil for the empty list and
/// for no argument, and anything that is no list as it is.
pub open spec fn head_of(args: Seq<ValueView>) -> ValueView {
    if args.len() == 0 {
        nil()
    } else {
        match args[0] {
            ValueView::List(items) => if items.len() > 0 {
                items[0]
            } else {
                nil()
            },
            other => other,
        }
    }
}

/// What `tail` returns: a list without its first item, and nil for anything
/// that is no list and for no argument.
pub open spec fn tail_of(args: Seq<ValueView>) -> ValueView {
    if args.len() == 0 {
        nil()
    } else {
        match args[0] {
            ValueView::List(items) => if items.len() > 0 {
                ValueView::List(items.skip(1))
            } else {
                nil()
            },
            _ => nil(),
        }
    }
}

/// What `cons` returns: all arguments but the last, in front of the last
/// taken as a list. A last argument that is no list is a list of one item.
pub open spec fn cons_of(args: Seq<ValueView>) -> ValueView {
    if args.len() == 0 {
        nil()
    } else {
        ValueView::List(
            args.drop_last() + match args.last() {
                ValueView::List(items) => items,
                other => seq![other],
            },
        )
    }
}

/// One step of `+`, `-`, `*` or `/`.
pub open spec fn apply(op: NativeFunction, a: Number, b: Number) -> Number {
    match op {
        NativeFunction::Add => a.sum(b),
        NativeFunction::Sub => a.difference(b),
        NativeFunction::Mul => a.product(b),
        NativeFunction::Div => a.quotient(b),
        _ => a,
    }
}

/// Folds the arguments from number `from` on into `acc`, from left to right.
pub open spec fn fold_from(op: NativeFunction, acc: Number, args: Seq<ValueView>, from: nat) -> Number
    decreases args.len() - from,
{
    if from >= args.len() {
        acc
    } else {
        fold_from(op, apply(op, acc, Value::number_of(args[from as int])), args, from + 1)
    }
}

/// What `+` returns: the sum of the arguments, from 0.
pub open spec fn add_of(args: Seq<ValueView>) -> ValueView {
    ValueView::Number(fold_from(NativeFunction::Add, Number::Int(0), args, 0))
}

/// What `-` returns: the negation of a single argument, the first argument
/// less all the others, and 0 for no argument.
pub open spec fn sub_of(args: Seq<ValueView>) -> ValueView {
    if args.len() == 0 {
        ValueView::Number(Number::Int(0))
    } else if args.len() == 1 {
        ValueView::Number(Number::Int(0).difference(Value::number_of(args[0])))
    } else {
        ValueView::Number(fold_from(NativeFunction::Sub, Value::number_of(args[0]), args, 1))
    }
}

/// What `*` returns: the product of the arguments, from 1.
pub open spec fn mul_of(args: Seq<ValueView>) -> ValueView {
    ValueView::Number(fold_from(NativeFunction::Mul, Number::Int(1), args, 0))
}

/// What `/` returns: the first argument divided by all the others, and 1
/// for no argument.
pub open spec fn div_of(args: Seq<ValueView>) -> ValueView {
    if args.len() == 0 {
        ValueView::Number(Number::Int(1))
    } else {
        ValueView::Number(fold_from(NativeFunction::Div, Value::number_of(args[0]), args, 1))
    }
}

/// Dividing one integer by another gives a double, also where the division
/// is exact: the quotient of the two as doubles.
pub proof fn lemma_div_of_ints_is_float(a: i64, b: i64)
    ensures
        Number::Int(a).quotient(Number::Int(b)) is Float,
        div_of(seq![ValueView::Number(Number::Int(a)), ValueView::Number(Number::Int(b))])
            == ValueView::Number(
            Number::Float(
                crate::value::float::ieee_div(
                    crate::value::float::ieee_from_int(a),
                    crate::value::float::ieee_from_int(b),
                ),
            ),
        ),
{
    let args = seq![ValueView::Number(Number::Int(a)), ValueView::Number(Number::Int(b))];
    reveal_with_fuel(fold_from, 3);
    assert(args[0] == ValueView::Number(Number::Int(a)));
    assert(args[1] == ValueView::Number(Number::Int(b)));
}

/// What `sqrt` returns: the square root of the first argument as a double,
/// and 1.0 for no argument.
pub open spec fn sqrt_of(args: Seq<ValueView>) -> ValueView {
    if args.len() == 0 {
        ValueView::Number(Number::Float(ONE_BITS))
    } else {
        ValueView::Number(Number::Float(ieee_sqrt(Value::number_of(args[0]).as_float())))
    }
}

/// Whether two values are equal: atoms and strings by their characters,
/// numbers in the tower, lists item by item. A function or an object equals
/// nothing, and values of different kinds are never equal.
pub open spec fn values_equal(a: ValueView, b: ValueView) -> bool
    decreases a, 0nat,
{
    match (a, b) {
        (ValueView::Atom(x), ValueView::Atom(y)) => x == y,
        (ValueView::Number(x), ValueView::Number(y)) => x.order(y) == FloatOrder::Equal,
        (ValueView::Str(x), ValueView::Str(y)) => x == y,
        (ValueView::List(x), ValueView::List(y)) => x.len() == y.len() && items_equal(x, y, 0),
        _ => false,
    }
}

/// Whether the items of `x` from number `from` on equal those of `y`.
pub open spec fn items_equal(x: Seq<ValueView>, y: Seq<ValueView>, from: nat) -> bool
    decreases x, x.len() - from,
{
    if from >= x.len() {
        true
    } else {
        values_equal(x[from as int], y[from as int]) && items_equal(x, y, from + 1)
    }
}

/// Whether each argument from number `from` on equals, or differs from, the first.
pub open spec fn all_from(equal: bool, args: Seq<ValueView>, from: nat) -> bool
    decreases args.len() - from,
{
    if from >= args.len() {
        true
    } else {
        values_equal(args[from as int], args[0]) == equal && all_from(equal, args, from + 1)
    }
}

/// What `=` returns: whether every other argument equals the first; true for
/// no argument.
pub open spec fn eq_of(args: Seq<ValueView>) -> ValueView {
    truth(args.len() == 0 || all_from(true, args, 1))
}

/// What `!=` returns: whether every other argument differs from the first;
/// false for no argument.
pub open spec fn ne_of(args: Seq<ValueView>) -> ValueView {
    truth(args.len() > 0 && all_from(false, args, 1))
}

/// Whether two numbers ordered as `order` stand in the relation `op`.
pub open spec fn holds(op: NativeFunction, order: FloatOrder) -> bool {
    match op {
        NativeFunction::Lt => order == FloatOrder::Less,
        NativeFunction::Le => order == FloatOrder::Less || order == FloatOrder::Equal,
        NativeFunction::Gt => order == FloatOrder::Greater,
        NativeFunction::Ge => order == FloatOrder::Greater || order == FloatOrder::Equal,
        _ => false,
    }
}

/// What `<`, `<=`, `>` and `>=` return: whether the first argument stands in
/// the relation to the second, or to 0 where there is no second; false for
/// no argument.
pub open spec fn compare_of(op: NativeFunction, args: Seq<ValueView>) -> ValueView {
    if args.len() == 0 {
        truth(false)
    } else if args.len() == 1 {
        truth(holds(op, Value::number_of(args[0]).order(Number::Int(0))))
    } else {
        truth(holds(op, Value::number_of(args[0]).order(Value::number_of(args[1]))))
    }
}

/// What the native function `f` does to the state, and what it returns.
pub open spec fn native(f: NativeFunction, st: StateView, args: Seq<ValueView>) -> Outcome {
    match f {
        NativeFunction::Debug => (debug_from(st, args, 0), Ok(nil())),
        NativeFunction::Print => (print_from(st, args, 0), Ok(nil())),
        NativeFunction::Head => (st, Ok(head_of(args))),
        NativeFunction::Tail => (st, Ok(tail_of(args))),
        NativeFunction::Cons => (st, Ok(cons_of(args))),
        NativeFunction::Add => (st, Ok(add_of(args))),
        NativeFunction::Sub => (st, Ok(sub_of(args))),
        NativeFunction::Mul => (st, Ok(mul_of(args))),
        NativeFunction::Div => (st, Ok(div_of(args))),
        NativeFunction::Sqrt => (st, Ok(sqrt_of(args))),
        NativeFunction::Eq => (st, Ok(eq_of(args))),
        NativeFunction::Ne => (st, Ok(ne_of(args))),
        NativeFunction::Lt => (st, Ok(compare_of(NativeFunction::Lt, args))),
        NativeFunction::Le => (st, Ok(compare_of(NativeFunction::Le, args))),
        NativeFunction::Gt => (st, Ok(compare_of(NativeFunction::Gt, args))),
        NativeFunction::Ge => (st, Ok(compare_of(NativeFunction::Ge, args))),
    }
}

/// `debug`: prints the structural text of each argument on a line of its own.
pub fn debug(abl: &mut State, args: &[Value]) -> (r: Result<Value, Error>)
    ensures
        outcome_view(r) == Ok::<ValueView, crate::error::ErrorView>(nil()),
        final(abl)@ == debug_from(old(abl)@, values_view(args@), 0),
        final(abl).depth_limit() == old(abl).depth_limit(),
{
    let mut i: usize = 0;
    while i < args.len()
        invariant
            i <= args.len(),
            abl.depth_limit() == old(abl).depth_limit(),
            debug_from(old(abl)@, values_view(args@), 0) == debug_from(
                abl@,
                values_view(args@),
                i as nat,
            ),
        decreases args.len() - i,
    {
        let line = args[i].repr().concat("\n");
        abl.emit(line);
        i += 1;
    }
    Ok(Value::nil())
}

/// `put-str`: prints the text of each argument.
pub fn print(abl: &mut State, args: &[Value]) -> (r: Result<Value, Error>)
    ensures
        outcome_view(r) == Ok::<ValueView, crate::error::ErrorView>(nil()),
        final(abl)@ == print_from(old(abl)@, values_view(args@), 0),
        final(abl).depth_limit() == old(abl).depth_limit(),
{
    let mut i: usize = 0;
    while i < args.len()
        invariant
            i <= args.len(),
            abl.depth_limit() == old(abl).depth_limit(),
            print_from(old(abl)@, values_view(args@), 0) == print_from(
                abl@,
                values_view(args@),
                i as nat,
            ),
        decreases args.len() - i,
    {
        abl.emit(args[i].to_string());
        i += 1;
    }
    Ok(Value::nil())
}

/// `head`: the first item of a list.
pub fn head(abl: &mut State, args: &[Value]) -> (r: Result<Value, Error>)
    ensures
        outcome_view(r) == Ok::<ValueView, crate::error::ErrorView>(head_of(values_view(args@))),
        *final(abl) == *old(abl),
{
    if args.len() == 0 {
        Ok(Value::nil())
    } else {
        match &args[0] {
            Value::List(list) => match list.head() {
                Some(value) => Ok(value.clone()),
                None => Ok(Value::nil()),
            },
            other => Ok(other.clone()),
        }
    }
}

/// `tail`: a list without its first item.
pub fn tail(abl: &mut State, args: &[Value]) -> (r: Result<Value, Error>)
    ensures
        outcome_view(r) == Ok::<ValueView, crate::error::ErrorView>(tail_of(values_view(args@))),
        *final(abl) == *old(abl),
{
    if args.len() == 0 {
        Ok(Value::nil())
    } else {
        match &args[0] {
            Value::List(list) => Ok(Value::List(list.tail())),
            _ => Ok(Value::nil()),
        }
    }
}

/// `cons`: puts all arguments but the last in front of the last.
pub fn cons(abl: &mut State, args: &[Value]) -> (r: Result<Value, Error>)
    ensures
        outcome_view(r) == Ok::<ValueView, crate::error::ErrorView>(cons_of(values_view(args@))),
        *final(abl) == *old(abl),
{
    if args.len() == 0 {
        return Ok(Value::nil());
    }
    let n = args.len() - 1;
    let mut list: Rc<List> = match &args[n] {
        Value::List(list) => list.clone(),
        other => {
            let single = List::new().push_front(other.clone());
            assert(single@ =~= seq![other@]);
            single
        },
    };
    let ghost base = list@;
    let ghost views = values_view(args@);
    let mut i: usize = n;
    assert(views.subrange(n as int, n as int) + base =~= base);
    while i > 0
        invariant
            i <= n,
            n + 1 == args.len(),
            views == values_view(args@),
            list@ == views.subrange(i as int, n as int) + base,
        decreases i,
    {
        i -= 1;
        list = list.push_front(args[i].clone());
        assert(list@ =~= views.subrange(i as int, n as int) + base);
    }
    assert(views.subrange(0, n as int) =~= views.drop_last());
    Ok(Value::List(list))
}

/// Folds the arguments from number `from` on into `acc` with `op`.
pub fn fold(op: NativeFunction, acc: Number, args: &[Value], from: usize) -> (r: Number)
    ensures
        r == fold_from(op, acc, values_view(args@), from as nat),
{
    let mut res = acc;
    let mut i: usize = from;
    while i < args.len()
        invariant
            fold_from(op, acc, values_view(args@), from as nat) == fold_from(
                op,
                res,
                values_view(args@),
                i as nat,
            ),
        decreases args.len() - i,
    {
        let n = args[i].to_number();
        res = match op {
            NativeFunction::Add => res.add(n),
            NativeFunction::Sub => res.sub(n),
            NativeFunction::Mul => res.mul(n),
            NativeFunction::Div => res.div(n),
            _ => res,
        };
        i += 1;
    }
    res
}

/// `+`: the sum of the arguments.
pub fn add(abl: &mut State, args: &[Value]) -> (r: Result<Value, Error>)
    ensures
        outcome_view(r) == Ok::<ValueView, crate::error::ErrorView>(add_of(values_view(args@))),
        *final(abl) == *old(abl),
{
    Ok(Value::Number(fold(NativeFunction::Add, Number::Int(0), args, 0)))
}

/// `-`: the negation of one argument, or the first less the others.
pub fn sub(abl: &mut State, args: &[Value]) -> (r: Result<Value, Error>)
    ensures
        outcome_view(r) == Ok::<ValueView, crate::error::ErrorView>(sub_of(values_view(args@))),
        *final(abl) == *old(abl),
{
    if args.len() == 1 {
        Ok(Value::Number(Number::Int(0).sub(args[0].to_number())))
    } else if args.len() > 0 {
        Ok(Value::Number(fold(NativeFunction::Sub, args[0].to_number(), args, 1)))
    } else {
        Ok(Value::Number(Number::Int(0)))
    }
}

/// `*`: the product of the arguments.
pub fn mul(abl: &mut State, args: &[Value]) -> (r: Result<Value, Error>)
    ensures
        outcome_view(r) == Ok::<ValueView, crate::error::ErrorView>(mul_of(values_view(args@))),
        *final(abl) == *old(abl),
{
    Ok(Value::Number(fold(NativeFunction::Mul, Number::Int(1), args, 0)))
}

/// `/`: the first argument divided by the others.
pub fn div(abl: &mut State, args: &[Value]) -> (r: Result<Value, Error>)
    ensures
        outcome_view(r) == Ok::<ValueView, crate::error::ErrorView>(div_of(values_view(args@))),
        *final(abl) == *old(abl),
{
    if args.len() > 0 {
        Ok(Value::Number(fold(NativeFunction::Div, args[0].to_number(), args, 1)))
    } else {
        Ok(Value::Number(Number::Int(1)))
    }
}

/// `sqrt`: the square root of the first argument, as a double.
pub fn sqrt(abl: &mut State, args: &[Value]) -> (r: Result<Value, Error>)
    ensures
        outcome_view(r) == Ok::<ValueView, crate::error::ErrorView>(sqrt_of(values_view(args@))),
        *final(abl) == *old(abl),
{
    if args.len() > 0 {
        Ok(Value::Number(Number::Float(float_sqrt(args[0].to_number().to_float()))))
    } else {
        Ok(Value::Number(Number::Float(ONE_BITS)))
    }
}

/// Whether each argument from number `from` on equals, or differs from, the first.
pub fn all_others(equal: bool, args: &[Value], from: usize) -> (r: bool)
    requires
        args.len() > 0,
    ensures
        r == all_from(equal, values_view(args@), from as nat),
{
    let mut i: usize = from;
    while i < args.len()
        invariant
            args.len() > 0,
            all_from(equal, values_view(args@), from as nat) == all_from(
                equal,
                values_view(args@),
                i as nat,
            ),
        decreases args.len() - i,
    {
        if args[i].equals(&args[0]) != equal {
            return false;
        }
        i += 1;
    }
    true
}

/// `=`: whether every other argument equals the first.
pub fn eq(abl: &mut State, args: &[Value]) -> (r: Result<Value, Error>)
    ensures
        outcome_view(r) == Ok::<ValueView, crate::error::ErrorView>(eq_of(values_view(args@))),
        *final(abl) == *old(abl),
{
    if args.len() == 0 {
        Ok(truth_value(true))
    } else {
        Ok(truth_value(all_others(true, args, 1)))
    }
}

/// `!=`: whether every other argument differs from the first.
pub fn ne(abl: &mut State, args: &[Value]) -> (r: Result<Value, Error>)
    ensures
        outcome_view(r) == Ok::<ValueView, crate::error::ErrorView>(ne_of(values_view(args@))),
        *final(abl) == *old(abl),
{
    if args.len() == 0 {
        Ok(truth_value(false))
    } else {
        Ok(truth_value(all_others(false, args, 1)))
    }
}

/// Whether the first argument stands in the relation `op` to the second, or
/// to 0 where there is no second.
pub fn compare(op: NativeFunction, args: &[Value]) -> (r: Value)
    ensures
        r@ == compare_of(op, values_view(args@)),
{
    if args.len() == 0 {
        return truth_value(false);
    }
    let left = args[0].to_number();
    let right = if args.len() == 1 {
        Number::Int(0)
    } else {
        args[1].to_number()
    };
    let order = left.compare(right);
    truth_value(
        match op {
            NativeFunction::Lt => order == FloatOrder::Less,
            NativeFunction::Le => order == FloatOrder::Less || order == FloatOrder::Equal,
            NativeFunction::Gt => order == FloatOrder::Greater,
            NativeFunction::Ge => order == FloatOrder::Greater || order == FloatOrder::Equal,
            _ => false,
        },
    )
}

/// `<`: whether the first argument is less than the second.
pub fn lt(abl: &mut State, args: &[Value]) -> (r: Result<Value, Error>)
    ensures
        outcome_view(r) == Ok::<ValueView, crate::error::ErrorView>(
            compare_of(NativeFunction::Lt, values_view(args@)),
        ),
        *final(abl) == *old(abl),
{
    Ok(compare(NativeFunction::Lt, args))
}

/// `<=`: whether the first argument is at most the second.
pub fn le(abl: &mut State, args: &[Value]) -> (r: Result<Value, Error>)
    ensures
        outcome_view(r) == Ok::<ValueView, crate::error::ErrorView>(
            compare_of(NativeFunction::Le, values_view(args@)),
        ),
        *final(abl) == *old(abl),
{
    Ok(compare(NativeFunction::Le, args))
}

/// `>`: whether the first argument is greater than the second.
pub fn gt(abl: &mut State, args: &[Value]) -> (r: Result<Value, Error>)
    ensures
        outcome_view(r) == Ok::<ValueView, crate::error::ErrorView>(
            compare_of(NativeFunction::Gt, values_view(args@)),
        ),
        *final(abl) == *old(abl),
{
    Ok(compare(NativeFunction::Gt, args))
}

/// `>=`: whether the first argument is at least the second.
pub fn ge(abl: &mut State, args: &[Value]) -> (r: Result<Value, Error>)
    ensures
        outcome_view(r) == Ok::<ValueView, crate::error::ErrorView>(
            compare_of(NativeFunction::Ge, values_view(args@)),
        ),
        *final(abl) == *old(abl),
{
    Ok(compare(NativeFunction::Ge, args))
}

/// Runs the native function `f` on `args`.
pub fn run_native(f: NativeFunction, abl: &mut State, args: &[Value]) -> (r: Result<Value, Error>)
    ensures
        (final(abl)@, outcome_view(r)) == native(f, old(abl)@, values_view(args@)),
        final(abl).depth_limit() == old(abl).depth_limit(),
{
    match f {
        NativeFunction::Debug => debug(abl, args),
        NativeFunction::Print => print(abl, args),
        NativeFunction::Head => head(abl, args),
        NativeFunction::Tail => tail(abl, args),
        NativeFunction::Cons => cons(abl, args),
        NativeFunction::Add => self::add(abl, args),
        NativeFunction::Sub => self::sub(abl, args),
        NativeFunction::Mul => self::mul(abl, args),
        NativeFunction::Div => div(abl, args),
        NativeFunction::Sqrt => sqrt(abl, args),
        NativeFunction::Eq => eq(abl, args),
        NativeFunction::Ne => ne(abl, args),
        NativeFunction::Lt => lt(abl, args),
        NativeFunction::Le => le(abl, args),
        NativeFunction::Gt => gt(abl, args),
        NativeFunction::Ge => ge(abl, args),
    }
}

} // verus!
