use sexpr::eval::context;
use sexpr::eval::helper::{apply, bind_all, eval_args, next_arg};
use sexpr::eval::lib::arith::{add, div, do_arith, mul, sub};
use sexpr::eval::lib::context::{define, defined, lambda};
use sexpr::eval::lib::io::print;
use sexpr::eval::lib::run::do_;
use sexpr::eval::lib::{call_builtin, register};
use sexpr::eval::semantics::Operator;
use sexpr::eval::value::{Builtin, Context, Piece, Value};
use sexpr::eval::vm::{eval_call, eval_in_context, eval_list, leave, resolve, Purpose, Step};
use sexpr::eval::VM;
use sexpr::lexer::Lexer;
use sexpr::parser::{Node, Parser};

fn node(expr: &str) -> Node {
    Parser::new(Lexer::new(expr)).parse().unwrap()
}

fn nodes(expr: &str) -> Vec<Node> {
    let mut parser = Parser::new(Lexer::new(expr));
    let mut nodes = Vec::new();
    while let Some(node) = parser.next() {
        nodes.push(node);
    }
    nodes
}

fn number(value: f64) -> Value {
    Value::Number(value.to_bits())
}

fn string(text: &str) -> Value {
    Value::String(text.to_string())
}

fn machine() -> VM {
    let mut vm = VM::new();
    vm.load_stdlib();
    vm
}

/// Steps until the machine has something to say, with a host that knows small
/// whole numbers only.
fn settle(vm: &mut VM) -> Step {
    loop {
        match vm.step() {
            Step::Continue => {}
            Step::Round(numeral) => {
                let number: f64 = numeral.as_str().parse().unwrap();
                vm.resume(number.to_bits());
            }
            other => return other,
        }
    }
}

fn finished(vm: &mut VM) -> Option<Value> {
    match settle(vm) {
        Step::Finished(outcome) => outcome,
        other => panic!("not finished: {:?}", other),
    }
}

#[test]
fn register_binds_the_eight_builtins() {
    let mut ctx = context::new();
    ctx.insert("mine".to_string(), number(1.0));
    register(&mut ctx);
    for builtin in [
        Builtin::Define,
        Builtin::Lambda,
        Builtin::Add,
        Builtin::Sub,
        Builtin::Mul,
        Builtin::Div,
        Builtin::Print,
        Builtin::Do,
    ] {
        assert_eq!(ctx.get(&builtin.name().to_string()), Some(&Value::BuiltinFunction(builtin)));
    }
    assert_eq!(ctx.get(&"mine".to_string()), Some(&number(1.0)));
    assert_eq!(ctx.get(&"quote".to_string()), None);
}

#[test]
fn lambda_keeps_a_copy_of_the_environment() {
    let mut ctx = Context::new();
    ctx.insert("seen".to_string(), number(1.0));
    let function = lambda(&ctx, &nodes("(x y) (f x y)")).unwrap();
    ctx.insert("later".to_string(), number(2.0));
    ctx.insert("seen".to_string(), number(3.0));
    match function {
        Value::Function { context, args, body } => {
            assert_eq!(args, ["x", "y"]);
            assert_eq!(body, node("(f x y)"));
            assert_eq!(context.get(&"seen".to_string()), Some(&number(1.0)));
            assert_eq!(context.get(&"later".to_string()), None);
        }
        other => panic!("not a function: {:?}", other),
    }
    assert!(lambda(&ctx, &nodes("")).is_none());
    assert!(lambda(&ctx, &nodes("(x)")).is_none());
    assert!(lambda(&ctx, &nodes("(x) 1 2")).is_none());
    assert!(lambda(&ctx, &nodes("x 1")).is_none());
    assert!(lambda(&ctx, &nodes("(x 2) 1")).is_none());
    assert!(lambda(&ctx, &nodes("() 1")).is_some());
}

#[test]
fn define_starts_with_the_value() {
    let mut vm = machine();
    assert!(matches!(define(&mut vm, nodes("x \"v\"")), Step::Continue));
    assert_eq!(finished(&mut vm), Some(Value::nil()));
    assert_eq!(vm.root().get(&"x".to_string()), Some(&string("v")));

    let mut vm = machine();
    assert!(matches!(define(&mut vm, nodes("\"x\" 1")), Step::Continue));
    assert_eq!(finished(&mut vm), None);
    assert!(matches!(define(&mut vm, nodes("x")), Step::Continue));
    assert_eq!(finished(&mut vm), None);
}

#[test]
fn defined_binds_what_has_a_value() {
    let mut vm = machine();
    assert!(matches!(defined(&mut vm, "x".to_string(), Some(number(1.0))), Step::Continue));
    assert_eq!(finished(&mut vm), Some(Value::nil()));
    assert!(matches!(defined(&mut vm, "y".to_string(), None), Step::Continue));
    assert_eq!(finished(&mut vm), Some(Value::nil()));
    assert_eq!(vm.root().get(&"x".to_string()), Some(&number(1.0)));
    assert_eq!(vm.root().get(&"y".to_string()), None);
}

#[test]
fn each_operation_asks_with_its_operator() {
    let operations: [(fn(&mut VM, Vec<Node>) -> Step, Operator); 4] = [
        (add, Operator::Add),
        (sub, Operator::Sub),
        (mul, Operator::Mul),
        (div, Operator::Div),
    ];
    for (operation, operator) in operations {
        let mut vm = machine();
        assert!(matches!(operation(&mut vm, nodes("6 3")), Step::Continue));
        match settle(&mut vm) {
            Step::Compute(asked, a, b) => {
                assert_eq!(asked, operator);
                assert_eq!((a, b), (6.0f64.to_bits(), 3.0f64.to_bits()));
            }
            other => panic!("did not ask: {:?}", other),
        }
        assert!(vm.resume(9.0f64.to_bits()));
        assert_eq!(finished(&mut vm), Some(number(9.0)));
    }
}

#[test]
fn do_arith_wants_two_numbers() {
    let mut vm = machine();
    match do_arith(&mut vm, Operator::Mul, vec![number(2.0), number(4.0)]) {
        Step::Compute(Operator::Mul, a, b) => {
            assert_eq!((a, b), (2.0f64.to_bits(), 4.0f64.to_bits()))
        }
        other => panic!("did not ask: {:?}", other),
    }
    assert!(vm.waiting());
    for values in [
        vec![],
        vec![number(1.0)],
        vec![number(1.0), number(2.0), number(3.0)],
        vec![number(1.0), string("2")],
        vec![Value::nil(), number(2.0)],
    ] {
        let mut vm = machine();
        assert!(matches!(do_arith(&mut vm, Operator::Add, values), Step::Continue));
        assert!(!vm.waiting());
        assert_eq!(finished(&mut vm), None);
    }
}

#[test]
fn print_hands_out_pieces() {
    let mut vm = machine();
    match print(&mut vm, vec![string("a"), number(1.5), Value::List(vec![string("b")])]) {
        Step::Print(pieces) => {
            let shown: Vec<String> = pieces
                .iter()
                .map(|piece| match piece {
                    Piece::Text(text) => format!("text {:?}", text),
                    Piece::Number(bits) => format!("number {}", f64::from_bits(*bits)),
                })
                .collect();
            assert_eq!(shown, ["text \"a\"", "text \" \"", "number 1.5", "text \" \"", "text \"b\""]);
        }
        other => panic!("did not print: {:?}", other),
    }
    assert_eq!(finished(&mut vm), Some(Value::nil()));
}

#[test]
fn do_gives_the_last_of_its_values() {
    let mut vm = machine();
    assert!(matches!(do_(&mut vm, vec![number(1.0), string("last")]), Step::Continue));
    assert_eq!(finished(&mut vm), Some(string("last")));
    assert!(matches!(do_(&mut vm, vec![]), Step::Continue));
    assert_eq!(finished(&mut vm), None);
}

#[test]
fn arguments_are_evaluated_from_left_to_right() {
    let mut vm = machine();
    assert!(matches!(eval_args(&mut vm, Purpose::Do, nodes("(define a 1) (define b a) b")), Step::Continue));
    assert_eq!(finished(&mut vm), Some(number(1.0)));

    let mut vm = machine();
    assert!(matches!(eval_args(&mut vm, Purpose::Do, nodes("")), Step::Continue));
    assert_eq!(finished(&mut vm), None);

    let mut vm = machine();
    let step = next_arg(&mut vm, Purpose::Do, nodes("1 \"two\""), vec![number(1.0)], Some(string("two")));
    assert!(matches!(step, Step::Continue));
    assert_eq!(finished(&mut vm), Some(string("two")));

    let mut vm = machine();
    let step = next_arg(&mut vm, Purpose::Do, nodes("1 2"), vec![], None);
    assert!(matches!(step, Step::Continue));
    assert_eq!(finished(&mut vm), None);

    let mut vm = machine();
    let step = next_arg(&mut vm, Purpose::Do, nodes("1 \"two\""), vec![], Some(number(1.0)));
    assert!(matches!(step, Step::Continue));
    assert_eq!(finished(&mut vm), Some(string("two")));
}

#[test]
fn a_call_binds_parameters_to_values() {
    let mut ctx = Context::new();
    ctx.insert("kept".to_string(), number(0.0));
    let params = vec!["x".to_string(), "y".to_string(), "z".to_string()];
    let scope = bind_all(ctx.clone(), &params, &vec![number(1.0), number(2.0)]);
    assert_eq!(scope.get(&"x".to_string()), Some(&number(1.0)));
    assert_eq!(scope.get(&"y".to_string()), Some(&number(2.0)));
    assert_eq!(scope.get(&"z".to_string()), None);
    assert_eq!(scope.get(&"kept".to_string()), Some(&number(0.0)));
    let scope = bind_all(ctx, &params[..1].to_vec(), &vec![number(1.0), number(2.0)]);
    assert_eq!(scope.get(&"x".to_string()), Some(&number(1.0)));
    assert_eq!(scope.get(&"y".to_string()), None);

    let mut vm = machine();
    let purpose = Purpose::Call { context: scope, params: vec!["p".to_string()], body: node("p") };
    assert!(matches!(apply(&mut vm, purpose, vec![string("v")]), Step::Continue));
    assert_eq!(vm.current().get(&"p".to_string()), Some(&string("v")));
    assert_eq!(vm.current().get(&"+".to_string()), None);
    assert_eq!(finished(&mut vm), Some(string("v")));
    assert_eq!(vm.current().get(&"p".to_string()), None);
}

#[test]
fn leave_drops_the_innermost_environment() {
    let mut vm = machine();
    let purpose = Purpose::Call { context: Context::new(), params: vec![], body: node("()") };
    apply(&mut vm, purpose, vec![]);
    assert_eq!(vm.current().get(&"+".to_string()), None);
    assert!(matches!(leave(&mut vm, Some(number(1.0))), Step::Continue));
    assert!(vm.current().get(&"+".to_string()).is_some());
    assert!(matches!(leave(&mut vm, None), Step::Continue));
    assert!(vm.current().get(&"+".to_string()).is_some());
}

#[test]
fn calls_go_by_the_kind_of_the_callee() {
    let mut vm = machine();
    assert!(matches!(eval_call(&mut vm, Some(Value::BuiltinFunction(Builtin::Do)), nodes("\"a\" \"b\"")), Step::Continue));
    assert_eq!(finished(&mut vm), Some(string("b")));
    for callee in [None, Some(number(1.0)), Some(string("f")), Some(Value::nil())] {
        assert!(matches!(eval_call(&mut vm, callee, nodes("(define touched 1)")), Step::Continue));
        assert_eq!(finished(&mut vm), None);
    }
    assert_eq!(vm.root().get(&"touched".to_string()), None);

    let identity = lambda(&Context::new(), &nodes("(x) x"));
    assert!(matches!(eval_call(&mut vm, identity, nodes("\"arg\"")), Step::Continue));
    assert_eq!(finished(&mut vm), Some(string("arg")));

    assert!(matches!(call_builtin(&mut vm, Builtin::Lambda, nodes("() 1")), Step::Continue));
    assert!(matches!(finished(&mut vm), Some(Value::Function { .. })));
    assert!(matches!(call_builtin(&mut vm, Builtin::Define, nodes("x \"y\"")), Step::Continue));
    assert_eq!(finished(&mut vm), Some(Value::nil()));
    match call_builtin(&mut vm, Builtin::Print, nodes("")) {
        Step::Print(pieces) => assert!(pieces.is_empty()),
        other => panic!("did not print: {:?}", other),
    }
}

#[test]
fn nodes_are_evaluated_by_their_kind() {
    let mut vm = machine();
    assert!(matches!(eval_in_context(&mut vm, node("\"s\"")), Step::Continue));
    assert_eq!(finished(&mut vm), Some(string("s")));
    assert!(matches!(eval_in_context(&mut vm, node("unbound")), Step::Continue));
    assert_eq!(finished(&mut vm), None);
    match eval_in_context(&mut vm, node("12.5")) {
        Step::Round(numeral) => assert_eq!(numeral.as_str(), "12.5"),
        other => panic!("did not ask: {:?}", other),
    }
    assert!(vm.resume(12.5f64.to_bits()));
    assert_eq!(finished(&mut vm), Some(number(12.5)));
    assert!(matches!(eval_list(&mut vm, vec![]), Step::Continue));
    assert_eq!(finished(&mut vm), Some(Value::nil()));
    assert!(matches!(eval_list(&mut vm, nodes("do \"x\"")), Step::Continue));
    assert_eq!(finished(&mut vm), Some(string("x")));
}

#[test]
fn an_outcome_without_waiting_work_ends_the_evaluation() {
    let mut vm = machine();
    match resolve(&mut vm, Some(number(1.0))) {
        Step::Finished(outcome) => assert_eq!(outcome, Some(number(1.0))),
        other => panic!("not finished: {:?}", other),
    }
    assert!(vm.idle());
}
