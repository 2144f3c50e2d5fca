use ab_lisp::action::{Action, ActionVal};
use ab_lisp::error::{Error, ErrorKind};
use ab_lisp::location::{Location, Source};
use ab_lisp::parser::parse;
use ab_lisp::state::{State, DEFAULT_DEPTH};
use ab_lisp::value::function::NativeFunction;
use ab_lisp::value::list::List;
use ab_lisp::value::number::Number;
use ab_lisp::value::Value;

fn program(src: &str) -> Vec<Action> {
    parse(Source::File("test.abl".to_string()), src).expect("the program parses")
}

fn fresh() -> State {
    let mut abl = State::new();
    abl.reg_prelude();
    abl
}

fn run_in(abl: &mut State, src: &str) -> Result<Value, Error> {
    let actions = program(src);
    abl.execute(&actions[..])
}

fn run(src: &str) -> Result<Value, Error> {
    run_in(&mut fresh(), src)
}

fn run_int(src: &str) -> i64 {
    match run(src).expect("the program runs") {
        Value::Number(Number::Int(i)) => i,
        other => panic!("not an integer: {:?}", other),
    }
}

fn run_float(src: &str) -> f64 {
    match run(src).expect("the program runs") {
        Value::Number(Number::Float(bits)) => f64::from_bits(bits),
        other => panic!("not a float: {:?}", other),
    }
}

fn int_value(i: i64) -> Value {
    Value::Number(Number::Int(i))
}

fn is_nil(v: &Value) -> bool {
    matches!(v, Value::List(l) if l.is_nil())
}

fn error_at(src: &str) -> (ErrorKind, usize, usize) {
    let e = run(src).unwrap_err();
    let l = e.location().expect("the error has a location");
    (e.kind().clone(), l.span.start, l.span.end)
}

#[test]
fn adds_two_integers() {
    assert_eq!(run_int("(+ 1 2)"), 3);
}

#[test]
fn defines_and_calls_a_function() {
    assert_eq!(run_int("(function double (x) (* x 2)) (double 21)"), 42);
}

#[test]
fn quoted_group_is_a_list() {
    let quoted = run("'(1 2 3)").unwrap();
    match &quoted {
        Value::List(l) => assert_eq!(l.len(), 3),
        other => panic!("not a list: {:?}", other),
    }
    let consed = run("(cons 1 2 3 '())").unwrap();
    assert!(quoted.equals(&consed));
    assert!(quoted.equals(&Value::list(&[int_value(1), int_value(2), int_value(3)])));
}

#[test]
fn let_then_set_then_read() {
    assert_eq!(run_int("(do (let x 1) (set x (+ x 1)) x)"), 2);
    assert_eq!(run_int("(let x 1) (set x (+ x 1)) x"), 2);
}

#[test]
fn let_wants_names_where_names_stand() {
    let (kind, start, end) = error_at("(let x 1 (set x (+ x 1)) x)");
    assert!(matches!(kind, ErrorKind::Syntax));
    assert_eq!((start, end), (9, 10));
}

#[test]
fn malformed_if_is_a_syntax_error() {
    let (kind, start, end) = error_at("(if 1 2)");
    assert!(matches!(kind, ErrorKind::Syntax));
    assert_eq!((start, end), (1, 3));
    let (kind, start, end) = error_at("(do (if 1 2 3 4))");
    assert!(matches!(kind, ErrorKind::Syntax));
    assert_eq!((start, end), (5, 7));
}

#[test]
fn empty_program_and_empty_group_are_nil() {
    assert!(is_nil(&run("").unwrap()));
    assert!(is_nil(&run("()").unwrap()));
    assert!(is_nil(&run("(do)").unwrap()));
    assert!(is_nil(&run("'()").unwrap()));
}

#[test]
fn literals_evaluate_to_themselves() {
    assert_eq!(run_int("7"), 7);
    assert_eq!(run_float("2.5"), 2.5);
    assert!(matches!(run("'sym").unwrap(), Value::Atom(n) if n == "sym"));
    assert!(matches!(run("\"text\"").unwrap(), Value::String(s) if s == "text"));
}

#[test]
fn unbound_name_reads_as_nil_and_becomes_a_global() {
    let mut abl = fresh();
    assert!(abl.get_local("ghost").is_none());
    assert!(is_nil(&run_in(&mut abl, "ghost").unwrap()));
    let cell = abl.get_var("ghost");
    assert!(is_nil(&abl.read(cell)));
    assert_eq!(abl.get_var("ghost"), cell);
    assert!(abl.get_local("ghost").is_none());
    assert!(is_nil(&run_in(&mut abl, "(function f () inner-ghost) (f)").unwrap()));
}

#[test]
fn do_runs_in_order_and_returns_the_last() {
    assert_eq!(run_int("(do 1 2 3)"), 3);
    assert_eq!(run_int("(do (let a 1) (set a (+ a 10)) (* a 2))"), 22);
}

#[test]
fn let_binds_several_names() {
    assert_eq!(run_int("(let a 1 b 2) (+ a b)"), 3);
    assert_eq!(run_int("(let a 1 b 2)"), 2);
    assert!(is_nil(&run("(let a)").unwrap()));
    assert!(is_nil(&run("(let a 1 b)").unwrap()));
    assert!(is_nil(&run("(let)").unwrap()));
    assert_eq!(run_int("(let a 1 b (+ a 1)) b"), 2);
    let (kind, start, end) = error_at("(let 1 2)");
    assert!(matches!(kind, ErrorKind::Syntax));
    assert_eq!((start, end), (5, 6));
}

#[test]
fn set_writes_several_names() {
    assert_eq!(run_int("(let a 1 b 2) (set a 10 b 20) (+ a b)"), 30);
    assert!(is_nil(&run("(set)").unwrap()));
    assert!(is_nil(&run("(let a 5) (set a) a").unwrap()));
    assert_eq!(run_int("(set fresh-global 4) fresh-global"), 4);
    let (kind, start, end) = error_at("(set 'a 2)");
    assert!(matches!(kind, ErrorKind::Syntax));
    assert_eq!((start, end), (5, 7));
}

#[test]
fn every_pair_of_a_set_writes_and_none_declares() {
    let src = "(let a 1 b 2) (function f () (set a 10 b 20)) (f) (+ a b)";
    assert_eq!(run_int(src), 30);
}

#[test]
fn if_takes_the_branch_by_truthiness() {
    assert_eq!(run_int("(if 1 10 20)"), 10);
    assert_eq!(run_int("(if 0 10 20)"), 20);
    assert_eq!(run_int("(if '() 10 20)"), 20);
    assert_eq!(run_int("(if '(0) 10 20)"), 10);
    assert_eq!(run_int("(if 0.0 10 20)"), 20);
    assert_eq!(run_int("(if -0.0 10 20)"), 20);
    assert_eq!(run_int("(if 0.5 10 20)"), 10);
    assert_eq!(run_int("(if 'a 10 20)"), 10);
    assert_eq!(run_int("(if \"\" 10 20)"), 10);
    assert_eq!(run_int("(if + 10 20)"), 10);
    assert_eq!(run_int("(if (< 1 2) 10 20)"), 10);
}

#[test]
fn if_does_not_evaluate_the_other_branch() {
    let mut abl = fresh();
    let r = run_in(&mut abl, "(let x 0) (if 1 (set x 1) (do (debug 99) (set x 2))) x").unwrap();
    assert!(matches!(r, Value::Number(Number::Int(1))));
    assert!(abl.take_output().is_empty());
    let r = run_in(&mut abl, "(if 0 (do (debug 99) (set x 3)) (set x 4)) x").unwrap();
    assert!(matches!(r, Value::Number(Number::Int(4))));
    assert!(abl.take_output().is_empty());
    run_in(&mut abl, "(if 1 (debug 1) (debug 2))").unwrap();
    assert_eq!(abl.take_output(), vec!["1\n".to_string()]);
}

#[test]
fn let_inside_a_function_is_invisible_outside() {
    let mut abl = fresh();
    let r = run_in(&mut abl, "(function f () (let y 5) y) (f)").unwrap();
    assert!(matches!(r, Value::Number(Number::Int(5))));
    assert!(is_nil(&run_in(&mut abl, "y").unwrap()));
    assert!(abl.get_local("y").is_none());
    let r = run_in(&mut abl, "(let z 1) (function g () (let z 2) z) (g)").unwrap();
    assert!(matches!(r, Value::Number(Number::Int(2))));
    assert!(matches!(run_in(&mut abl, "z").unwrap(), Value::Number(Number::Int(1))));
}

#[test]
fn parameters_are_invisible_outside() {
    let mut abl = fresh();
    run_in(&mut abl, "(function f (p) p) (f 3)").unwrap();
    assert!(is_nil(&run_in(&mut abl, "p").unwrap()));
}

#[test]
fn set_in_a_function_mutates_the_outer_cell() {
    assert_eq!(run_int("(let x 1) (function g () (set x 7)) (g) x"), 7);
    let src = "(function outer () (let v 1) (inner) v) (function inner () (set v 2)) (outer)";
    assert_eq!(run_int(src), 2);
}

#[test]
fn scopes_are_closed_after_an_error() {
    let mut abl = fresh();
    let e = run_in(&mut abl, "(function f () (let local 1) (1 2)) (f)").unwrap_err();
    assert!(matches!(e.kind(), ErrorKind::NotAFunction));
    assert!(abl.get_local("local").is_none());
    assert!(is_nil(&run_in(&mut abl, "local").unwrap()));
    run_in(&mut abl, "(let top 3)").unwrap();
    assert!(abl.get_local("top").is_none());
    assert!(matches!(run_in(&mut abl, "top").unwrap(), Value::Number(Number::Int(3))));
}

#[test]
fn captured_cell_is_shared_by_reference() {
    let src = "(function make () (let c 1) (funcap get () (c) c) (set c 9) get)
               (let getter (make))
               (getter)";
    assert_eq!(run_int(src), 9);
    assert_eq!(run_int("(let x 1) (funcap h () (x) x) (set x 5) (h)"), 5);
}

#[test]
fn captured_cell_can_be_written_from_the_closure() {
    let src = "(function counter () (let n 0) (funcap step () (n) (set n (+ n 1)) n) step)
               (let tick (counter))
               (tick) (tick) (tick)";
    assert_eq!(run_int(src), 3);
    let src = "(function counter () (let n 0) (funcap step () (n) (set n (+ n 1)) n) step)
               (let a (counter) b (counter))
               (a) (a) (b)";
    assert_eq!(run_int(src), 1);
}

#[test]
fn plain_function_captures_nothing() {
    let src = "(function make () (let c 1) (function get () c) get)
               (let getter (make))
               (getter)";
    assert!(is_nil(&run(src).unwrap()));
}

#[test]
fn function_is_visible_to_itself() {
    let src = "(function fact (n) (if (<= n 1) 1 (* n (fact (- n 1))))) (fact 10)";
    assert_eq!(run_int(src), 3628800);
    let src = "(function fib (n) (if (< n 2) n (+ (fib (- n 1)) (fib (- n 2))))) (fib 15)";
    assert_eq!(run_int(src), 610);
}

#[test]
fn function_form_returns_the_function() {
    assert!(matches!(run("(function f (a b) a)").unwrap(), Value::Function(_)));
    assert!(matches!(run("(funcap f (a) (q) a)").unwrap(), Value::Function(_)));
}

#[test]
fn missing_arguments_are_nil_and_extra_ones_ignored() {
    assert!(is_nil(&run("(function second (a b) b) (second 1)").unwrap()));
    assert_eq!(run_int("(function first (a) a) (first 1 2 3)"), 1);
    assert!(is_nil(&run("(function none (a) a) (none)").unwrap()));
}

#[test]
fn arguments_are_evaluated_left_to_right() {
    let src = "(let n 0) (function next () (set n (+ n 1)) n) '((next) (next) (next))";
    let r = run(src).unwrap();
    assert!(r.equals(&Value::list(&[int_value(1), int_value(2), int_value(3)])));
    assert_eq!(run_int("(let n 0) (function next () (set n (+ n 1)) n) (- (next) (next))"), -1);
}

#[test]
fn malformed_function_forms_are_syntax_errors() {
    let cases = [
        ("(function f (x))", 1, 9),
        ("(function)", 1, 9),
        ("(function 1 (x) x)", 10, 11),
        ("(function f x x)", 12, 13),
        ("(function f (x 1) x)", 15, 16),
        ("(function f ((y)) x)", 13, 14),
        ("(funcap f (x) (c))", 1, 7),
        ("(funcap 1 (x) (c) x)", 8, 9),
        ("(funcap f x (c) x)", 10, 11),
        ("(funcap f (x) c x)", 14, 15),
        ("(funcap f ('a) (c) x)", 11, 13),
    ];
    for (src, start, end) in cases {
        let (kind, s, e) = error_at(src);
        assert!(matches!(kind, ErrorKind::Syntax), "{src}");
        assert_eq!((s, e), (start, end), "{src}");
    }
}

#[test]
fn funcap_skips_captures_that_are_no_names() {
    assert_eq!(run_int("(let x 4) (funcap f () (1 x 'a) x) (f)"), 4);
}

#[test]
fn object_dispatches_on_an_atom() {
    let src = "(function area (w h) (* w h)) (function name () 'rect)
               (let shape (object area name not-there 5))
               (shape 'area 3 4)";
    assert_eq!(run_int(src), 12);
    let src = "(function name () 'rect) (let shape (object name)) (shape 'name)";
    assert!(matches!(run(src).unwrap(), Value::Atom(n) if n == "rect"));
    assert!(matches!(run("(object)").unwrap(), Value::Object(m) if m.is_empty()));
    assert!(matches!(run("(let v 1) (object v +)").unwrap(), Value::Object(m) if m.len() == 1));
}

#[test]
fn object_errors() {
    let defs = "(function m () 1) (let o (object m))\n";
    let (kind, start, end) = error_at(&format!("{defs}(o)"));
    assert!(matches!(kind, ErrorKind::NotAFunction));
    assert_eq!((start, end), (38, 39));
    let (kind, _, _) = error_at(&format!("{defs}(o 'other)"));
    assert!(matches!(kind, ErrorKind::NotAFunction));
    let (kind, start, end) = error_at(&format!("{defs}(o 1)"));
    assert!(matches!(kind, ErrorKind::BadIndex));
    assert_eq!((start, end), (38, 39));
    let (kind, _, _) = error_at(&format!("{defs}(o \"m\")"));
    assert!(matches!(kind, ErrorKind::BadIndex));
}

#[test]
fn calling_what_is_no_function_fails() {
    let (kind, start, end) = error_at("(1 2)");
    assert!(matches!(kind, ErrorKind::NotAFunction));
    assert_eq!((start, end), (1, 2));
    let (kind, start, end) = error_at("(do ('a))");
    assert!(matches!(kind, ErrorKind::NotAFunction));
    assert_eq!((start, end), (5, 7));
    let (kind, _, _) = error_at("(nothing-here 1)");
    assert!(matches!(kind, ErrorKind::NotAFunction));
    let (kind, _, _) = error_at("(\"f\")");
    assert!(matches!(kind, ErrorKind::NotAFunction));
}

#[test]
fn errors_stop_the_run() {
    let mut abl = fresh();
    let e = run_in(&mut abl, "(let a 1) (1) (set a 2)").unwrap_err();
    assert!(matches!(e.kind(), ErrorKind::NotAFunction));
    assert!(matches!(run_in(&mut abl, "a").unwrap(), Value::Number(Number::Int(1))));
    let e = run_in(&mut abl, "'(1 (2) 3)").unwrap_err();
    assert!(matches!(e.kind(), ErrorKind::NotAFunction));
    let e = run_in(&mut abl, "(+ 1 (if 1))").unwrap_err();
    assert!(matches!(e.kind(), ErrorKind::Syntax));
}

#[test]
fn special_form_names_are_not_looked_up() {
    assert_eq!(run_int("(let do 5) (do 1 2)"), 2);
    assert_eq!(run_int("(let if 5) if"), 5);
}

#[test]
fn value_call_runs_a_function() {
    let mut abl = fresh();
    let loc = Location::new(&Source::File("here".to_string()), 3, 5);
    let plus = Value::native_function(NativeFunction::Add);
    let args = List::from_slice(&[int_value(2), int_value(5)]);
    let r = plus.call(&mut abl, args, &loc).unwrap();
    assert!(matches!(r, Value::Number(Number::Int(7))));
    let e = int_value(1).call(&mut abl, List::new(), &loc).unwrap_err();
    assert!(matches!(e.kind(), ErrorKind::NotAFunction));
    let l = e.location().unwrap();
    assert_eq!(l.span, 3..5);
    assert!(matches!(&l.source, Source::File(p) if p == "here"));
    let f = run_in(&mut abl, "(function twice (x) (* 2 x))").unwrap();
    let r = f.call(&mut abl, List::from_slice(&[int_value(8)]), &loc).unwrap();
    assert!(matches!(r, Value::Number(Number::Int(16))));
    assert!(abl.get_local("x").is_none());
}

#[test]
fn set_local_binds_globally_without_a_scope() {
    let mut abl = State::new();
    abl.set_local("a", int_value(1));
    assert!(abl.get_local("a").is_none());
    let cell = abl.get_var("a");
    assert!(matches!(abl.read(cell), Value::Number(Number::Int(1))));
    abl.set_local("a", int_value(2));
    let newer = abl.get_var("a");
    assert_ne!(cell, newer);
    assert!(matches!(abl.read(newer), Value::Number(Number::Int(2))));
    assert!(matches!(abl.read(cell), Value::Number(Number::Int(1))));
}

#[test]
fn scopes_shadow_from_the_inside_out() {
    let mut abl = State::new();
    abl.set_local("a", int_value(1));
    abl.push_scope(Vec::new());
    assert!(abl.get_local("a").is_none());
    abl.set_local("a", int_value(2));
    let inner = abl.get_local("a").unwrap();
    assert_eq!(abl.get_var("a"), inner);
    abl.push_scope(Vec::new());
    assert_eq!(abl.get_local("a"), Some(inner));
    abl.set_local("a", int_value(3));
    let innermost = abl.get_local("a").unwrap();
    assert!(matches!(abl.read(innermost), Value::Number(Number::Int(3))));
    abl.pop_scope();
    assert_eq!(abl.get_local("a"), Some(inner));
    abl.pop_scope();
    assert!(abl.get_local("a").is_none());
    abl.pop_scope();
    let cell = abl.get_var("a");
    assert!(matches!(abl.read(cell), Value::Number(Number::Int(1))));
}

#[test]
fn reading_and_writing_a_cell_that_is_not_there() {
    let mut abl = State::new();
    assert!(is_nil(&abl.read(17)));
    abl.write(17, int_value(1));
    assert!(is_nil(&abl.read(17)));
}

#[test]
fn nesting_is_bounded() {
    let mut abl = State::with_depth(40);
    abl.reg_prelude();
    assert_eq!(abl.depth(), 40);
    let e = run_in(&mut abl, "(function loop () (loop)) (loop)").unwrap_err();
    assert!(matches!(e.kind(), ErrorKind::TooDeep));
    assert!(e.location().is_some());
    assert!(abl.get_local("anything").is_none());
    let r = run_in(&mut abl, "(+ 1 (+ 2 (+ 3 4)))").unwrap();
    assert!(matches!(r, Value::Number(Number::Int(10))));
    let mut shallow = State::with_depth(0);
    let e = shallow.execute(&program("1")[..]).unwrap_err();
    assert!(matches!(e.kind(), ErrorKind::TooDeep));
    assert!(is_nil(&shallow.execute(&[]).unwrap()));
    let mut one = State::with_depth(1);
    assert!(matches!(one.execute(&program("1")[..]).unwrap(), Value::Number(Number::Int(1))));
    let e = one.execute(&program("(do 1)")[..]).unwrap_err();
    assert!(matches!(e.kind(), ErrorKind::TooDeep));
}

#[test]
fn default_depth_stops_endless_recursion() {
    let mut abl = fresh();
    assert_eq!(abl.depth(), DEFAULT_DEPTH);
    let e = run_in(&mut abl, "(function loop (n) (+ 1 (loop n))) (loop 1)").unwrap_err();
    assert!(matches!(e.kind(), ErrorKind::TooDeep));
}

#[test]
fn recursion_within_the_default_depth_runs() {
    let src = "(function count (n) (if (<= n 0) 0 (+ 1 (count (- n 1))))) (count 100)";
    assert_eq!(run_int(src), 100);
}

#[test]
fn eval_of_a_single_action() {
    let mut abl = fresh();
    let actions = program("(* 6 7)");
    let r = abl.eval(&actions[0], 10).unwrap();
    assert!(matches!(r, Value::Number(Number::Int(42))));
    let e = abl.eval(&actions[0], 1).unwrap_err();
    assert!(matches!(e.kind(), ErrorKind::TooDeep));
    assert!(matches!(&actions[0].val, ActionVal::Group { .. }));
}

#[test]
fn error_messages() {
    assert_eq!(Error::new(ErrorKind::Usage).message(), "Usage: ab_lisp <path>");
    assert_eq!(
        Error::new(ErrorKind::File("a/b.abl".to_string())).message(),
        "Can't open file `a/b.abl`"
    );
    assert_eq!(
        Error::new(ErrorKind::NotAFunction).message(),
        "Attempt to call a non-function value"
    );
    assert!(Error::new(ErrorKind::Usage).location().is_none());
    let loc = Location::new(&Source::File("f".to_string()), 1, 2);
    let e = Error::new_at(ErrorKind::Syntax, loc);
    assert_eq!(e.message(), "Syntax error");
    assert_eq!(e.location().unwrap().span, 1..2);
    assert!(matches!(e.kind(), ErrorKind::Syntax));
    assert!(!Error::new(ErrorKind::BadIndex).message().is_empty());
    assert!(!Error::new(ErrorKind::TooDeep).message().is_empty());
}
