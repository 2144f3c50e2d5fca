use ab_lisp::location::Source;
use ab_lisp::parser::parse;
use ab_lisp::prelude;
use ab_lisp::state::State;
use ab_lisp::value::number::Number;
use ab_lisp::value::Value;

fn interpreter() -> State {
    let mut abl = State::new();
    abl.reg_prelude();
    abl
}

fn eval_in(abl: &mut State, src: &str) -> Value {
    let actions = parse(Source::File("natives.abl".to_string()), src).expect("the program parses");
    abl.execute(&actions[..]).expect("the program runs")
}

fn eval(src: &str) -> Value {
    eval_in(&mut interpreter(), src)
}

fn eval_int(src: &str) -> i64 {
    match eval(src) {
        Value::Number(Number::Int(i)) => i,
        other => panic!("{src}: not an integer: {:?}", other),
    }
}

fn eval_float(src: &str) -> f64 {
    match eval(src) {
        Value::Number(Number::Float(bits)) => f64::from_bits(bits),
        other => panic!("{src}: not a float: {:?}", other),
    }
}

fn nil(v: &Value) -> bool {
    matches!(v, Value::List(l) if l.is_nil())
}

fn num(i: i64) -> Value {
    Value::Number(Number::Int(i))
}

#[test]
fn addition() {
    assert_eq!(eval_int("(+)"), 0);
    assert_eq!(eval_int("(+ 5)"), 5);
    assert_eq!(eval_int("(+ 1 2 3 4)"), 10);
    assert_eq!(eval_float("(+ 1 0.5)"), 1.5);
    assert_eq!(eval_float("(+ 1.5 2.25)"), 3.75);
    assert_eq!(eval_float("(+ 0.1 0.2)"), 0.1 + 0.2);
    assert!(eval_float("(+ 1 'a)").is_nan());
    assert_eq!(eval_int("(+ 9223372036854775807 1)"), i64::MIN);
}

#[test]
fn subtraction() {
    assert_eq!(eval_int("(-)"), 0);
    assert_eq!(eval_int("(- 5)"), -5);
    assert_eq!(eval_int("(- 10 3 2)"), 5);
    assert_eq!(eval_float("(- 2.5)"), -2.5);
    assert_eq!(eval_float("(- 1 0.25)"), 0.75);
    assert_eq!(eval_int("(- -9223372036854775808)"), i64::MIN);
}

#[test]
fn multiplication() {
    assert_eq!(eval_int("(*)"), 1);
    assert_eq!(eval_int("(* 5)"), 5);
    assert_eq!(eval_int("(* 2 3 4)"), 24);
    assert_eq!(eval_float("(* 2 0.5)"), 1.0);
    assert_eq!(eval_float("(* 1.5 1.5)"), 2.25);
}

#[test]
fn division() {
    assert_eq!(eval_int("(/)"), 1);
    assert_eq!(eval_int("(/ 5)"), 5);
    assert_eq!(eval_float("(/ 4 2)"), 2.0);
    assert_eq!(eval_float("(/ 1 3)"), 1.0 / 3.0);
    assert_eq!(eval_float("(/ 100 5 2)"), 10.0);
    assert_eq!(eval_float("(/ 1.0 4)"), 0.25);
    assert_eq!(eval_float("(/ 2.5)"), 2.5);
    assert_eq!(eval_float("(/ 1 0)"), f64::INFINITY);
    assert_eq!(eval_float("(/ -1 0)"), f64::NEG_INFINITY);
}

#[test]
fn square_root() {
    assert_eq!(eval_float("(sqrt)"), 1.0);
    assert_eq!(eval_float("(sqrt 16)"), 4.0);
    assert_eq!(eval_float("(sqrt 2)"), 2.0f64.sqrt());
    assert_eq!(eval_float("(sqrt 2.25)"), 1.5);
    assert_eq!(eval_float("(sqrt 0)"), 0.0);
    assert!(eval_float("(sqrt -1)").is_nan());
    assert!(eval_float("(sqrt 'a)").is_nan());
    assert_eq!(eval_float("(sqrt 9 16)"), 3.0);
    for x in [0.5f64, 3.0, 10.0, 1e-310, 1e300, 123456.789, 0.1] {
        let r = prelude::sqrt(&mut interpreter(), &[Value::Number(Number::Float(x.to_bits()))]);
        match r.unwrap() {
            Value::Number(Number::Float(bits)) => assert_eq!(bits, x.sqrt().to_bits(), "{x}"),
            other => panic!("not a float: {:?}", other),
        }
    }
}

#[test]
fn equality() {
    assert_eq!(eval_int("(=)"), 1);
    assert_eq!(eval_int("(= 1)"), 1);
    assert_eq!(eval_int("(= 1 1)"), 1);
    assert_eq!(eval_int("(= 1 2)"), 0);
    assert_eq!(eval_int("(= 1 1 1)"), 1);
    assert_eq!(eval_int("(= 1 1 2)"), 0);
    assert_eq!(eval_int("(= 1 1.0)"), 1);
    assert_eq!(eval_int("(= 'a 'a)"), 1);
    assert_eq!(eval_int("(= 'a 'b)"), 0);
    assert_eq!(eval_int("(= \"s\" \"s\")"), 1);
    assert_eq!(eval_int("(= 'a \"a\")"), 0);
    assert_eq!(eval_int("(= '(1 2) '(1 2))"), 1);
    assert_eq!(eval_int("(= '(1 2) '(1 3))"), 0);
    assert_eq!(eval_int("(= '() '())"), 1);
    assert_eq!(eval_int("(= + +)"), 0);
}

#[test]
fn inequality() {
    assert_eq!(eval_int("(!=)"), 0);
    assert_eq!(eval_int("(!= 1)"), 1);
    assert_eq!(eval_int("(!= 1 2)"), 1);
    assert_eq!(eval_int("(!= 1 1)"), 0);
    assert_eq!(eval_int("(!= 1 2 3)"), 1);
    assert_eq!(eval_int("(!= 1 2 1)"), 0);
    assert_eq!(eval_int("(!= 'a 'b)"), 1);
}

#[test]
fn comparisons() {
    assert_eq!(eval_int("(<)"), 0);
    assert_eq!(eval_int("(<=)"), 0);
    assert_eq!(eval_int("(>)"), 0);
    assert_eq!(eval_int("(>=)"), 0);
    assert_eq!(eval_int("(< -1)"), 1);
    assert_eq!(eval_int("(< 0)"), 0);
    assert_eq!(eval_int("(<= 0)"), 1);
    assert_eq!(eval_int("(> 1)"), 1);
    assert_eq!(eval_int("(> 0)"), 0);
    assert_eq!(eval_int("(>= 0)"), 1);
    assert_eq!(eval_int("(>= -0.5)"), 0);
    assert_eq!(eval_int("(< 1 2)"), 1);
    assert_eq!(eval_int("(< 2 1)"), 0);
    assert_eq!(eval_int("(< 2 2)"), 0);
    assert_eq!(eval_int("(<= 2 2)"), 1);
    assert_eq!(eval_int("(<= 3 2)"), 0);
    assert_eq!(eval_int("(> 3 2)"), 1);
    assert_eq!(eval_int("(> 2 2)"), 0);
    assert_eq!(eval_int("(>= 2 2)"), 1);
    assert_eq!(eval_int("(>= 1 2)"), 0);
    assert_eq!(eval_int("(< 1 1.5)"), 1);
    assert_eq!(eval_int("(> 1.5 1)"), 1);
    assert_eq!(eval_int("(< 1 2 0)"), 1);
    assert_eq!(eval_int("(< 'a 1)"), 0);
    assert_eq!(eval_int("(>= 'a 1)"), 0);
}

#[test]
fn head_and_tail() {
    assert!(nil(&eval("(head)")));
    assert!(nil(&eval("(tail)")));
    assert_eq!(eval_int("(head '(1 2 3))"), 1);
    assert!(nil(&eval("(head '())")));
    assert_eq!(eval_int("(head 5)"), 5);
    assert!(eval("(tail '(1 2 3))").equals(&Value::list(&[num(2), num(3)])));
    assert!(nil(&eval("(tail '(1))")));
    assert!(nil(&eval("(tail '())")));
    assert!(nil(&eval("(tail 5)")));
    assert_eq!(eval_int("(head (tail '(1 2 3)))"), 2);
}

#[test]
fn cons_builds_lists() {
    assert!(nil(&eval("(cons)")));
    assert!(eval("(cons 1)").equals(&Value::list(&[num(1)])));
    assert!(eval("(cons '(1 2))").equals(&Value::list(&[num(1), num(2)])));
    assert!(eval("(cons 1 2)").equals(&Value::list(&[num(1), num(2)])));
    assert!(eval("(cons 1 '(2 3))").equals(&Value::list(&[num(1), num(2), num(3)])));
    assert!(eval("(cons 1 2 3 '())").equals(&Value::list(&[num(1), num(2), num(3)])));
    assert!(eval("(cons '(1) '(2))").equals(&Value::list(&[Value::list(&[num(1)]), num(2)])));
}

#[test]
fn cons_leaves_its_list_as_it_was() {
    let mut abl = interpreter();
    eval_in(&mut abl, "(let base '(2 3)) (let longer (cons 1 base))");
    assert!(eval_in(&mut abl, "base").equals(&Value::list(&[num(2), num(3)])));
    assert!(eval_in(&mut abl, "longer").equals(&Value::list(&[num(1), num(2), num(3)])));
    assert!(eval_in(&mut abl, "(tail longer)").equals(&Value::list(&[num(2), num(3)])));
}

#[test]
fn debug_prints_structural_text() {
    let mut abl = interpreter();
    let r = eval_in(&mut abl, "(debug 1 1.5 'a \"s\\n\" '(1 '(2 \"x\")) + (object))");
    assert!(nil(&r));
    assert_eq!(
        abl.take_output(),
        vec![
            "1\n".to_string(),
            "1.5\n".to_string(),
            "Atom(\"a\")\n".to_string(),
            "String(\"s\\n\")\n".to_string(),
            "[1, [2, String(\"x\")]]\n".to_string(),
            "Function(<native function>)\n".to_string(),
            "Object(<object>)\n".to_string(),
        ]
    );
    assert!(abl.take_output().is_empty());
    assert!(nil(&eval_in(&mut abl, "(debug)")));
    assert!(abl.take_output().is_empty());
}

#[test]
fn put_str_prints_text() {
    let mut abl = interpreter();
    let r = eval_in(&mut abl, "(put-str \"a b\" 1 2.5 'x \"\\n\")");
    assert!(nil(&r));
    assert_eq!(abl.take_output().concat(), "a b12.5Atom(\"x\")\n");
    eval_in(&mut abl, "(print \"again\")");
    assert_eq!(abl.take_output(), vec!["again".to_string()]);
}

#[test]
fn output_keeps_the_order_of_the_calls() {
    let mut abl = interpreter();
    eval_in(&mut abl, "(function say (x) (put-str x)) (say \"1\") (debug 2) (say \"3\")");
    assert_eq!(abl.take_output().concat(), "12\n3");
}

#[test]
fn floats_print_like_the_host() {
    for x in [0.1f64, 1.0, -2.5, 1e21, 1e-7, 123456789.125, f64::NAN, f64::NEG_INFINITY, 0.0, -0.0] {
        let v = Value::Number(Number::Float(x.to_bits()));
        assert_eq!(v.repr(), format!("{}", x));
    }
}

#[test]
fn natives_called_directly() {
    let mut abl = State::new();
    let args = [num(7), num(2)];
    assert!(matches!(prelude::add(&mut abl, &args).unwrap(), Value::Number(Number::Int(9))));
    assert!(matches!(prelude::sub(&mut abl, &args).unwrap(), Value::Number(Number::Int(5))));
    assert!(matches!(prelude::mul(&mut abl, &args).unwrap(), Value::Number(Number::Int(14))));
    assert!(
        matches!(prelude::div(&mut abl, &args).unwrap(), Value::Number(Number::Float(b)) if b == 3.5f64.to_bits())
    );
    assert!(matches!(prelude::eq(&mut abl, &args).unwrap(), Value::Number(Number::Int(0))));
    assert!(matches!(prelude::ne(&mut abl, &args).unwrap(), Value::Number(Number::Int(1))));
    assert!(matches!(prelude::lt(&mut abl, &args).unwrap(), Value::Number(Number::Int(0))));
    assert!(matches!(prelude::le(&mut abl, &args).unwrap(), Value::Number(Number::Int(0))));
    assert!(matches!(prelude::gt(&mut abl, &args).unwrap(), Value::Number(Number::Int(1))));
    assert!(matches!(prelude::ge(&mut abl, &args).unwrap(), Value::Number(Number::Int(1))));
    assert!(matches!(prelude::head(&mut abl, &args).unwrap(), Value::Number(Number::Int(7))));
    assert!(nil(&prelude::tail(&mut abl, &args).unwrap()));
    assert!(prelude::cons(&mut abl, &args).unwrap().equals(&Value::list(&args)));
    assert!(nil(&prelude::debug(&mut abl, &args).unwrap()));
    assert!(nil(&prelude::print(&mut abl, &args).unwrap()));
    assert_eq!(abl.take_output(), vec!["7\n", "2\n", "7", "2"]);
}

#[test]
fn prelude_names_are_globals_that_can_be_rebound() {
    let mut abl = interpreter();
    assert!(abl.get_local("+").is_none());
    let cell = abl.get_var("+");
    assert!(matches!(abl.read(cell), Value::Function(_)));
    assert!(matches!(eval_in(&mut abl, "(set + -) (+ 5 3)"), Value::Number(Number::Int(2))));
    let unregistered = State::new().read(0);
    assert!(nil(&unregistered));
}
