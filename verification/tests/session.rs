use sexpr::eval::semantics::Operator;
use sexpr::eval::value::{Piece, Value};
use sexpr::eval::vm::Step;
use sexpr::session::Session;

fn compute(operator: Operator, a: u64, b: u64) -> u64 {
    let (a, b) = (f64::from_bits(a), f64::from_bits(b));
    let result = match operator {
        Operator::Add => a + b,
        Operator::Sub => a - b,
        Operator::Mul => a * b,
        Operator::Div => a / b,
    };
    result.to_bits()
}

fn run(source: &str) -> (Option<Value>, String) {
    let mut session = Session::new(source);
    let mut output = String::new();
    loop {
        match session.step() {
            Step::Idle | Step::Continue => {}
            Step::Finished(outcome) => return (outcome, output),
            Step::Round(numeral) => {
                let number: f64 = numeral.as_str().parse().unwrap();
                assert!(session.resume(number.to_bits()));
            }
            Step::Compute(operator, a, b) => {
                assert!(session.resume(compute(operator, a, b)));
            }
            Step::Print(pieces) => {
                for piece in pieces {
                    match piece {
                        Piece::Text(text) => output.push_str(&text),
                        Piece::Number(bits) => {
                            output.push_str(&format!("{}", f64::from_bits(bits)))
                        }
                    }
                }
            }
        }
    }
}

fn number(value: f64) -> Value {
    Value::Number(value.to_bits())
}

#[test]
fn an_empty_program_comes_to_nothing() {
    assert_eq!(run(""), (None, String::new()));
    assert_eq!(run("  \n"), (None, String::new()));
}

#[test]
fn a_program_comes_to_its_last_value() {
    assert_eq!(run("1 2 3"), (Some(number(3.0)), String::new()));
    assert_eq!(run("(define x 5) (* x x)"), (Some(number(25.0)), String::new()));
    assert_eq!(run("(+ 1 2) (define x 5)"), (Some(Value::nil()), String::new()));
}

#[test]
fn forms_share_one_environment() {
    assert_eq!(
        run("(define square (lambda (x) (* x x)))\n(define y (square 3))\n(print y)\n(+ y 1)"),
        (Some(number(10.0)), "9".to_string())
    );
}

#[test]
fn a_failed_form_is_passed_over() {
    assert_eq!(run("1 nothing"), (Some(number(1.0)), String::new()));
    assert_eq!(run("nothing 2 (+ 1)"), (Some(number(2.0)), String::new()));
    assert_eq!(run("nothing (do)"), (None, String::new()));
    assert_eq!(run("nothing (print \"still\")"), (Some(Value::nil()), "still".to_string()));
}

#[test]
fn an_unfinished_form_ends_the_program() {
    assert_eq!(run("(print \"a\") (print"), (Some(Value::nil()), "a".to_string()));
    assert_eq!(run("7 (print \"a\" (print \"b\")"), (Some(number(7.0)), String::new()));
}

#[test]
fn nothing_behind_a_parse_failure_is_evaluated() {
    assert_eq!(run("1 ) 2 (print \"no\")"), (Some(number(1.0)), String::new()));
    assert_eq!(run("1 1.2.3 2"), (Some(number(1.0)), String::new()));
    assert_eq!(run("1 \"open 2"), (Some(number(1.0)), String::new()));
    assert_eq!(run("(print \"x\") (f 1..2) (print \"y\")"), (Some(Value::nil()), "x".to_string()));
}

#[test]
fn print_adds_no_newline() {
    assert_eq!(
        run("(print \"a\") (print \"b\" \"c\") (print 1.5)"),
        (Some(Value::nil()), "ab c1.5".to_string())
    );
}

#[test]
fn the_end_is_reported_again_and_again() {
    let mut session = Session::new("\"only\"");
    let first = loop {
        if let Step::Finished(outcome) = session.step() {
            break outcome;
        }
    };
    assert_eq!(first, Some(Value::String("only".to_string())));
    for _ in 0..3 {
        match session.step() {
            Step::Finished(outcome) => assert_eq!(outcome, first),
            other => panic!("not finished: {:?}", other),
        }
    }
    assert!(session.vm().idle());
    assert!(!session.resume(0));
}

#[test]
fn a_session_knows_the_builtins() {
    let session = Session::new("");
    for name in ["define", "lambda", "+", "-", "*", "/", "print", "do"] {
        assert!(session.vm().root().get(&name.to_string()).is_some(), "{}", name);
    }
    assert!(session.vm().root().get(&"quote".to_string()).is_none());
}
