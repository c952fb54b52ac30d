//! What a node evaluates to.
//!
//! `evaluate` gives the outcome of evaluating a node in an environment at one
//! stroke: the value or its absence, the environment afterwards, and the output
//! written meanwhile. It depends on the host's arithmetic, which it takes as a
//! parameter, and on a bound on how deep calls of functions may nest, without
//! which it would not be defined for programs that never end.
//!
//! The machine of `semantics` computes exactly this (`correctness`).

use vstd::prelude::*;
use crate::eval::semantics::{bind_all, bind_first, lambda, Env, Operator, PurposeView};
use crate::eval::value::{display_all, nil, Builtin, PieceView, ValueView};
use crate::parser::NodeView;

verus! {

/// The host's arithmetic: how it rounds a numeral, and what each operation gives.
pub struct Host {
    pub round: spec_fn(Seq<char>) -> u64,
    pub compute: spec_fn(Operator, u64, u64) -> u64,
}

/// The result of evaluating a node.
pub struct Evaluated {
    /// The value, or `None` where the evaluation failed.
    pub outcome: Option<ValueView>,
    /// The environment after the evaluation.
    pub env: Env,
    /// What was written, in order.
    pub output: Seq<PieceView>,
}

/// The result of evaluating arguments from left to right.
pub struct EvaluatedArgs {
    /// The values of all of them, or `None` where one of them failed; those
    /// behind it are then not evaluated.
    pub values: Option<Seq<ValueView>>,
    pub env: Env,
    pub output: Seq<PieceView>,
}

/// An evaluation that writes nothing and leaves the environment as it is.
pub open spec fn plain(outcome: Option<ValueView>, env: Env) -> Evaluated {
    Evaluated { outcome, env, output: Seq::empty() }
}

/// What a builtin gives for the values of its arguments, and what it writes.
pub struct Served {
    pub outcome: Option<ValueView>,
    pub output: Seq<PieceView>,
}

/// What a builtin that evaluates its arguments gives for their values, and what
/// it writes.
///
/// An arithmetic operation wants exactly two numbers and gives the host's result;
/// `print` gives nil and writes the display forms of the values, with one space
/// between two values; `do` gives the last value, and nothing where there is none.
/// (A call of a function is no builtin, and is given nothing here; `gather` says
/// what it comes to.)
pub open spec fn serve_builtin(host: Host, purpose: PurposeView, values: Seq<ValueView>) -> Served {
    match purpose {
        PurposeView::Arith(operator) => Served {
            outcome: if values.len() == 2 && values[0] is Number && values[1] is Number {
                Some(
                    ValueView::Number(
                        (host.compute)(operator, values[0]->Number_0, values[1]->Number_0),
                    ),
                )
            } else {
                None
            },
            output: Seq::empty(),
        },
        PurposeView::Print => Served { outcome: Some(nil()), output: display_all(values) },
        PurposeView::Do => Served {
            outcome: if values.len() > 0 {
                Some(values.last())
            } else {
                None
            },
            output: Seq::empty(),
        },
        PurposeView::Call { .. } => Served { outcome: None, output: Seq::empty() },
    }
}

/// Evaluates `node` in `env`.
///
/// The result is `None` only where a call of a function would nest deeper than
/// `depth` allows. Otherwise:
/// - a name gives the value it is bound to, and fails where it is unbound;
/// - a string gives itself, and a numeral the number that the host rounds it to;
/// - the empty list gives nil;
/// - any other list is a call: its first item is evaluated, and `call` says what
///   follows.
pub open spec fn evaluate(host: Host, env: Env, node: NodeView, depth: nat) -> Option<Evaluated>
    decreases depth, node, 0nat,
{
    match node {
        NodeView::Atom(name) => Some(
            plain(
                if env.contains_key(name) {
                    Some(env[name])
                } else {
                    None
                },
                env,
            ),
        ),
        NodeView::String(text) => Some(plain(Some(ValueView::String(text)), env)),
        NodeView::Number(numeral) => Some(
            plain(Some(ValueView::Number((host.round)(numeral))), env),
        ),
        NodeView::List(items) => if items.len() == 0 {
            Some(plain(Some(nil()), env))
        } else {
            match evaluate(host, env, items[0], depth) {
                None => None,
                Some(head) => match call(host, head.env, head.outcome, items, depth) {
                    None => None,
                    Some(result) => Some(
                        Evaluated {
                            outcome: result.outcome,
                            env: result.env,
                            output: head.output + result.output,
                        },
                    ),
                },
            }
        },
    }
}

/// Calls `callee`, the value of the first of `items`, with the other items as
/// arguments.
///
/// - A function has its arguments evaluated and its body run: see `gather`.
/// - `define` takes a name and a node. It evaluates the node in `env`, binds the
///   name to the value if there is one, and gives nil either way; with other
///   arguments it fails.
/// - `lambda` gives the function that `semantics::lambda` describes.
/// - The other builtins have their arguments evaluated: see `gather`.
/// - Nothing else can be called: the call fails.
pub open spec fn call(
    host: Host,
    env: Env,
    callee: Option<ValueView>,
    items: Seq<NodeView>,
    depth: nat,
) -> Option<Evaluated>
    decreases depth, items, items.len() + 2,
{
    match callee {
        Some(ValueView::Function { context, args: params, body }) => gather(
            host,
            env,
            PurposeView::Call { context, params, body },
            items,
            depth,
        ),
        Some(ValueView::BuiltinFunction(builtin)) => match builtin {
            Builtin::Define => if items.len() == 3 && items[1] is Atom {
                match evaluate(host, env, items[2], depth) {
                    None => None,
                    Some(value) => Some(
                        Evaluated {
                            outcome: Some(nil()),
                            env: match value.outcome {
                                Some(v) => value.env.insert(items[1]->Atom_0, v),
                                None => value.env,
                            },
                            output: value.output,
                        },
                    ),
                }
            } else {
                Some(plain(None, env))
            },
            Builtin::Lambda => Some(plain(lambda(env, items.skip(1)), env)),
            Builtin::Add => gather(host, env, PurposeView::Arith(Operator::Add), items, depth),
            Builtin::Sub => gather(host, env, PurposeView::Arith(Operator::Sub), items, depth),
            Builtin::Mul => gather(host, env, PurposeView::Arith(Operator::Mul), items, depth),
            Builtin::Div => gather(host, env, PurposeView::Arith(Operator::Div), items, depth),
            Builtin::Print => gather(host, env, PurposeView::Print, items, depth),
            Builtin::Do => gather(host, env, PurposeView::Do, items, depth),
        },
        _ => Some(plain(None, env)),
    }
}

/// Evaluates the arguments, which are all of `items` but the first, in `env`, and
/// serves `purpose` with their values.
///
/// Where an argument fails, the call fails. Otherwise a builtin gives what
/// `serve_builtin` says. A function has its body evaluated in an environment of
/// its own, see `semantics::bind_all`: the outcome is that of the body, and the
/// caller's environment is the one that the arguments left, whatever the body
/// defines.
pub open spec fn gather(
    host: Host,
    env: Env,
    purpose: PurposeView,
    items: Seq<NodeView>,
    depth: nat,
) -> Option<Evaluated>
    decreases depth, items, items.len() + 1,
{
    match evaluate_args(host, env, items, 1, depth) {
        None => None,
        Some(args) => match args.values {
            None => Some(Evaluated { outcome: None, env: args.env, output: args.output }),
            Some(values) => match purpose {
                PurposeView::Call { context, params, body } => if depth == 0 {
                    None
                } else {
                    match evaluate(
                        host,
                        bind_all(context, params, values),
                        body,
                        (depth - 1) as nat,
                    ) {
                        None => None,
                        Some(result) => Some(
                            Evaluated {
                                outcome: result.outcome,
                                env: args.env,
                                output: args.output + result.output,
                            },
                        ),
                    }
                },
                _ => Some(
                    Evaluated {
                        outcome: serve_builtin(host, purpose, values).outcome,
                        env: args.env,
                        output: args.output + serve_builtin(host, purpose, values).output,
                    },
                ),
            },
        },
    }
}

/// Evaluates the items of `items` from the place `from` on, from left to right,
/// each in the environment that the one before it left. The first that fails ends
/// it.
pub open spec fn evaluate_args(
    host: Host,
    env: Env,
    items: Seq<NodeView>,
    from: nat,
    depth: nat,
) -> Option<EvaluatedArgs>
    decreases depth, items, (if from <= items.len() {
        items.len() - from
    } else {
        0
    }),
{
    if from >= items.len() {
        Some(EvaluatedArgs { values: Some(Seq::empty()), env, output: Seq::empty() })
    } else {
        match evaluate(host, env, items[from as int], depth) {
            None => None,
            Some(first) => match first.outcome {
                None => Some(EvaluatedArgs { values: None, env: first.env, output: first.output }),
                Some(value) => match evaluate_args(host, first.env, items, from + 1, depth) {
                    None => None,
                    Some(rest) => Some(
                        EvaluatedArgs {
                            values: match rest.values {
                                Some(values) => Some(seq![value] + values),
                                None => None,
                            },
                            env: rest.env,
                            output: first.output + rest.output,
                        },
                    ),
                },
            },
        }
    }
}

/// A numeral evaluates to the number that the host rounds it to, whatever the
/// environment holds, and changes nothing.
pub proof fn lemma_numeral_evaluates(host: Host, env: Env, numeral: Seq<char>, depth: nat)
    ensures
        evaluate(host, env, NodeView::Number(numeral), depth) == Some(
            plain(Some(ValueView::Number((host.round)(numeral))), env),
        ),
{
}

/// A string evaluates to itself, and the empty list to nil.
pub proof fn lemma_literal_evaluates(host: Host, env: Env, text: Seq<char>, depth: nat)
    ensures
        evaluate(host, env, NodeView::String(text), depth) == Some(
            plain(Some(ValueView::String(text)), env),
        ),
        evaluate(host, env, NodeView::List(Seq::empty()), depth) == Some(plain(Some(nil()), env)),
{
}

/// The form `(define name node)`, with `define` bound to the builtin.
pub open spec fn definition(name: Seq<char>, node: NodeView) -> NodeView {
    NodeView::List(seq![NodeView::Atom("define"@), NodeView::Atom(name), node])
}

/// A definition gives nil and binds the name: where `node` evaluates to a value,
/// the name evaluates to that value afterwards. Where `node` fails, the
/// definition still gives nil, and binds nothing.
pub proof fn lemma_define_binds(host: Host, env: Env, name: Seq<char>, node: NodeView, depth: nat)
    requires
        env.contains_key("define"@),
        env["define"@] == ValueView::BuiltinFunction(Builtin::Define),
        evaluate(host, env, node, depth) is Some,
    ensures
        ({
            let value = evaluate(host, env, node, depth)->0;
            let defined = evaluate(host, env, definition(name, node), depth);
            &&& defined is Some
            &&& defined->0.outcome == Some(nil())
            &&& defined->0.output == value.output
            &&& value.outcome is None ==> defined->0.env == value.env
            &&& value.outcome is Some ==> defined->0.env == value.env.insert(
                name,
                value.outcome->0,
            ) && evaluate(host, defined->0.env, NodeView::Atom(name), depth) == Some(
                plain(value.outcome, defined->0.env),
            )
        }),
{
    let value = evaluate(host, env, node, depth)->0;
    reveal_with_fuel(evaluate, 3);
}

/// `do` without arguments gives no value, not nil; with arguments it gives the
/// value of the last, where all of them have one.
pub proof fn lemma_do_gives_last(host: Host, env: Env, items: Seq<NodeView>, depth: nat)
    requires
        items.len() > 0,
        items[0] == NodeView::Atom("do"@),
        env.contains_key("do"@),
        env["do"@] == ValueView::BuiltinFunction(Builtin::Do),
        evaluate_args(host, env, items, 1, depth) is Some,
    ensures
        ({
            let args = evaluate_args(host, env, items, 1, depth)->0;
            let done = evaluate(host, env, NodeView::List(items), depth);
            &&& done is Some
            &&& done->0.env == args.env
            &&& done->0.output == args.output
            &&& done->0.outcome == (match args.values {
                Some(values) if values.len() > 0 => Some(values.last()),
                _ => None,
            })
            &&& items.len() == 1 ==> done->0.outcome is None
        }),
{
    let args = evaluate_args(host, env, items, 1, depth)->0;
    reveal_with_fuel(evaluate, 3);
}

/// Binding parameters binds no other name.
pub proof fn lemma_bind_first_keeps_others(
    env: Env,
    params: Seq<Seq<char>>,
    values: Seq<ValueView>,
    n: nat,
    name: Seq<char>,
)
    requires
        !params.contains(name),
    ensures
        bind_first(env, params, values, n).contains_key(name) == env.contains_key(name),
        env.contains_key(name) ==> bind_first(env, params, values, n)[name] == env[name],
    decreases n,
{
    if !(n == 0 || n > params.len() || n > values.len()) {
        lemma_bind_first_keeps_others(env, params, values, (n - 1) as nat, name);
    }
}

/// A function sees the environment in which it was made, not the one in which
/// it is called.
///
/// In the body of a function, a name that is no parameter has the value that it
/// had where the function was made; one that was unbound there is unbound in the
/// body, whatever was defined later in that environment or is bound where the
/// call is made. `caller` is the caller's environment, which plays no part.
pub proof fn lemma_function_sees_its_own_environment(
    host: Host,
    caller: Env,
    context: Env,
    params: Seq<Seq<char>>,
    name: Seq<char>,
    items: Seq<NodeView>,
    depth: nat,
)
    requires
        !params.contains(name),
        depth > 0,
        evaluate_args(host, caller, items, 1, depth) is Some,
        evaluate_args(host, caller, items, 1, depth)->0.values is Some,
    ensures
        ({
            let called = gather(
                host,
                caller,
                PurposeView::Call { context, params, body: NodeView::Atom(name) },
                items,
                depth,
            );
            &&& called is Some
            &&& called->0.outcome == (if context.contains_key(name) {
                Some(context[name])
            } else {
                None
            })
        }),
{
    let args = evaluate_args(host, caller, items, 1, depth)->0;
    let values = args.values->0;
    let n: nat = if params.len() <= values.len() {
        params.len()
    } else {
        values.len()
    };
    lemma_bind_first_keeps_others(context, params, values, n, name);
}

/// A call of a function depends on the caller's environment only through the
/// values of the arguments: two callers whose arguments come to the same values
/// get the same outcome, whatever else their environments hold. What the body
/// defines stays in the call: each caller is left with the environment that its
/// arguments left.
pub proof fn lemma_call_depends_on_arguments_only(
    host: Host,
    caller: Env,
    other: Env,
    context: Env,
    params: Seq<Seq<char>>,
    body: NodeView,
    items: Seq<NodeView>,
    others: Seq<NodeView>,
    depth: nat,
)
    requires
        evaluate_args(host, caller, items, 1, depth) is Some,
        evaluate_args(host, other, others, 1, depth) is Some,
        evaluate_args(host, caller, items, 1, depth)->0.values is Some,
        evaluate_args(host, caller, items, 1, depth)->0.values == evaluate_args(
            host,
            other,
            others,
            1,
            depth,
        )->0.values,
    ensures
        ({
            let purpose = PurposeView::Call { context, params, body };
            let first = gather(host, caller, purpose, items, depth);
            let second = gather(host, other, purpose, others, depth);
            &&& first is Some == second is Some
            &&& first is Some ==> first->0.outcome == second->0.outcome
            &&& first is Some ==> first->0.env == evaluate_args(host, caller, items, 1, depth)->0.env
            &&& second is Some ==> second->0.env == evaluate_args(
                host,
                other,
                others,
                1,
                depth,
            )->0.env
        }),
{
}

/// The bound on the depth of calls decides only whether an evaluation is
/// defined, never what it gives: with a greater bound the result is the same.
pub proof fn lemma_depth_is_only_a_bound(
    host: Host,
    env: Env,
    node: NodeView,
    depth: nat,
    greater: nat,
)
    requires
        depth <= greater,
        evaluate(host, env, node, depth) is Some,
    ensures
        evaluate(host, env, node, greater) == evaluate(host, env, node, depth),
    decreases depth, node, 0nat,
{
    match node {
        NodeView::List(items) if items.len() > 0 => {
            lemma_depth_is_only_a_bound(host, env, items[0], depth, greater);
            let head = evaluate(host, env, items[0], depth)->0;
            lemma_call_depth(host, head.env, head.outcome, items, depth, greater);
        },
        _ => {},
    }
}

proof fn lemma_call_depth(
    host: Host,
    env: Env,
    callee: Option<ValueView>,
    items: Seq<NodeView>,
    depth: nat,
    greater: nat,
)
    requires
        depth <= greater,
        call(host, env, callee, items, depth) is Some,
    ensures
        call(host, env, callee, items, greater) == call(host, env, callee, items, depth),
    decreases depth, items, items.len() + 2,
{
    match callee {
        Some(ValueView::Function { context, args: params, body }) => {
            lemma_gather_depth(
                host,
                env,
                PurposeView::Call { context, params, body },
                items,
                depth,
                greater,
            );
        },
        Some(ValueView::BuiltinFunction(builtin)) => match builtin {
            Builtin::Define => {
                if items.len() == 3 && items[1] is Atom {
                    lemma_depth_is_only_a_bound(host, env, items[2], depth, greater);
                }
            },
            Builtin::Lambda => {},
            Builtin::Add => {
                lemma_gather_depth(
                    host,
                    env,
                    PurposeView::Arith(Operator::Add),
                    items,
                    depth,
                    greater,
                );
            },
            Builtin::Sub => {
                lemma_gather_depth(
                    host,
                    env,
                    PurposeView::Arith(Operator::Sub),
                    items,
                    depth,
                    greater,
                );
            },
            Builtin::Mul => {
                lemma_gather_depth(
                    host,
                    env,
                    PurposeView::Arith(Operator::Mul),
                    items,
                    depth,
                    greater,
                );
            },
            Builtin::Div => {
                lemma_gather_depth(
                    host,
                    env,
                    PurposeView::Arith(Operator::Div),
                    items,
                    depth,
                    greater,
                );
            },
            Builtin::Print => {
                lemma_gather_depth(host, env, PurposeView::Print, items, depth, greater);
            },
            Builtin::Do => {
                lemma_gather_depth(host, env, PurposeView::Do, items, depth, greater);
            },
        },
        _ => {},
    }
}

proof fn lemma_gather_depth(
    host: Host,
    env: Env,
    purpose: PurposeView,
    items: Seq<NodeView>,
    depth: nat,
    greater: nat,
)
    requires
        depth <= greater,
        gather(host, env, purpose, items, depth) is Some,
    ensures
        gather(host, env, purpose, items, greater) == gather(host, env, purpose, items, depth),
    decreases depth, items, items.len() + 1,
{
    lemma_args_depth(host, env, items, 1, depth, greater);
    let args = evaluate_args(host, env, items, 1, depth)->0;
    match (args.values, purpose) {
        (Some(values), PurposeView::Call { context, params, body }) => {
            lemma_depth_is_only_a_bound(
                host,
                bind_all(context, params, values),
                body,
                (depth - 1) as nat,
                (greater - 1) as nat,
            );
        },
        _ => {},
    }
}

proof fn lemma_args_depth(
    host: Host,
    env: Env,
    items: Seq<NodeView>,
    from: nat,
    depth: nat,
    greater: nat,
)
    requires
        depth <= greater,
        evaluate_args(host, env, items, from, depth) is Some,
    ensures
        evaluate_args(host, env, items, from, greater) == evaluate_args(
            host,
            env,
            items,
            from,
            depth,
        ),
    decreases depth, items, (if from <= items.len() {
        items.len() - from
    } else {
        0
    }),
{
    if from < items.len() {
        lemma_depth_is_only_a_bound(host, env, items[from as int], depth, greater);
        let first = evaluate(host, env, items[from as int], depth)->0;
        if first.outcome is Some {
            lemma_args_depth(host, first.env, items, from + 1, depth, greater);
        }
    }
}

} // verus!
