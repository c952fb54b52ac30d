//! The machine computes what `evaluate` says.
//!
//! `run` is the machine at work with a host that answers every request as the
//! given arithmetic says. The theorems at the end state that, wherever `evaluate`
//! is defined, the machine reaches the same outcome, the same environment and
//! the same output in a finite number of steps.

use vstd::prelude::*;
use crate::eval::evaluation::{
    call, evaluate, evaluate_args, gather, serve_builtin, Evaluated, Host,
};
use crate::eval::semantics::{
    apply, bind_all, current, eval_args, eval_call, go, idle, load, push, resume, step,
    ControlView, Env, FrameView, Moved, Operator, PurposeView, StepView, VMView,
};
use crate::eval::value::{Builtin, PieceView, ValueView};
use crate::parser::NodeView;

verus! {

/// A stretch of work: the state reached, what was written on the way, and
/// whether the machine was at work all the way, that is, whether no step found it
/// at rest and none reported the end of an evaluation.
pub struct Ran {
    pub vm: VMView,
    pub output: Seq<PieceView>,
    pub busy: bool,
}

/// The host's part after a step: it answers a request with its arithmetic, and
/// writes what it is given to write.
pub open spec fn after(host: Host, moved: Moved) -> Ran {
    match moved.step {
        StepView::Round(numeral) => Ran {
            vm: resume(moved.vm, (host.round)(numeral)),
            output: Seq::empty(),
            busy: true,
        },
        StepView::Compute(operator, a, b) => Ran {
            vm: resume(moved.vm, (host.compute)(operator, a, b)),
            output: Seq::empty(),
            busy: true,
        },
        StepView::Print(pieces) => Ran { vm: moved.vm, output: pieces, busy: true },
        StepView::Continue => Ran { vm: moved.vm, output: Seq::empty(), busy: true },
        _ => Ran { vm: moved.vm, output: Seq::empty(), busy: false },
    }
}

/// One step of the machine, with the host's part.
pub open spec fn serve(host: Host, vm: VMView) -> Ran {
    after(host, step(vm))
}

/// `n` steps of the machine, with the host's part after each.
pub open spec fn run(host: Host, vm: VMView, n: nat) -> Ran
    decreases n,
{
    if n == 0 {
        Ran { vm, output: Seq::empty(), busy: true }
    } else {
        let first = serve(host, vm);
        let rest = run(host, first.vm, (n - 1) as nat);
        Ran { vm: rest.vm, output: first.output + rest.output, busy: first.busy && rest.busy }
    }
}

/// The machine with `env` in place of its current environment.
pub open spec fn with_current(vm: VMView, env: Env) -> VMView {
    if vm.scopes.len() > 0 {
        VMView { scopes: vm.scopes.update(vm.scopes.len() - 1, env), ..vm }
    } else {
        VMView { root: env, ..vm }
    }
}

/// The state in which an evaluation that began in `vm` has ended as `evaluated`
/// says: the outcome is at hand, the current environment is the one left behind,
/// and the waiting work is untouched.
pub open spec fn settled(vm: VMView, evaluated: Evaluated) -> Ran {
    Ran {
        vm: VMView {
            control: ControlView::Give(evaluated.outcome),
            ..with_current(vm, evaluated.env)
        },
        output: evaluated.output,
        busy: true,
    }
}

/// Running `a` steps and then `b` steps is running `a + b` steps.
pub proof fn lemma_run_append(host: Host, vm: VMView, a: nat, b: nat)
    ensures
        run(host, vm, a + b) == (Ran {
            vm: run(host, run(host, vm, a).vm, b).vm,
            output: run(host, vm, a).output + run(host, run(host, vm, a).vm, b).output,
            busy: run(host, vm, a).busy && run(host, run(host, vm, a).vm, b).busy,
        }),
    decreases a,
{
    if a == 0 {
    } else {
        let first = serve(host, vm);
        lemma_run_append(host, first.vm, (a - 1) as nat, b);
        let mid = run(host, first.vm, (a - 1) as nat);
        let end = run(host, mid.vm, b);
        assert(first.output + (mid.output + end.output) =~= (first.output + mid.output)
            + end.output);
    }
}

/// Running one step is serving once.
pub proof fn lemma_run_one(host: Host, vm: VMView)
    ensures
        run(host, vm, 1) == serve(host, vm),
{
    let first = serve(host, vm);
    assert(run(host, first.vm, 0) == Ran { vm: first.vm, output: Seq::empty(), busy: true });
}

/// Running `a` steps, then one more.
pub proof fn lemma_run_then_one(host: Host, vm: VMView, a: nat)
    ensures
        run(host, vm, a + 1) == (Ran {
            vm: serve(host, run(host, vm, a).vm).vm,
            output: run(host, vm, a).output + serve(host, run(host, vm, a).vm).output,
            busy: run(host, vm, a).busy && serve(host, run(host, vm, a).vm).busy,
        }),
{
    lemma_run_append(host, vm, a, 1);
    lemma_run_one(host, run(host, vm, a).vm);
}

/// Putting the current environment in its own place changes nothing.
pub proof fn lemma_with_current_same(vm: VMView)
    ensures
        with_current(vm, current(vm)) == vm,
{
    if vm.scopes.len() > 0 {
        assert(vm.scopes.update(vm.scopes.len() - 1, vm.scopes.last()) =~= vm.scopes);
    }
}

/// The machine with `outcome` at hand and `env` as its current environment.
pub open spec fn giving(vm: VMView, outcome: Option<ValueView>, env: Env) -> VMView {
    VMView { control: ControlView::Give(outcome), ..with_current(vm, env) }
}

/// The host's part of a step that led to `moved`, and `n` more steps.
pub open spec fn and_then(host: Host, moved: Moved, n: nat) -> Ran {
    let first = after(host, moved);
    let rest = run(host, first.vm, n);
    Ran { vm: rest.vm, output: first.output + rest.output, busy: first.busy && rest.busy }
}

/// Replacing the current environment twice keeps the second.
pub proof fn lemma_with_current_twice(vm: VMView, a: Env, b: Env)
    ensures
        with_current(with_current(vm, a), b) == with_current(vm, b),
        current(with_current(vm, a)) == a,
{
    if vm.scopes.len() > 0 {
        let last = vm.scopes.len() - 1;
        assert(vm.scopes.update(last, a).update(last, b) =~= vm.scopes.update(last, b));
    }
}

/// The end of a call of a function or of a builtin that evaluates its arguments,
/// once the values are there. For a function, `n_body` steps are taken to
/// evaluate the body as `evaluate` says.
proof fn lemma_apply(
    host: Host,
    base: VMView,
    purpose: PurposeView,
    values: Seq<ValueView>,
    depth: nat,
    n_body: nat,
) -> (n: nat)
    requires
        purpose matches PurposeView::Call { context, params, body } ==> {
            let entered = go(
                push(
                    VMView { scopes: base.scopes.push(bind_all(context, params, values)), ..base },
                    FrameView::Leave,
                ),
                body,
            ).vm;
            &&& depth > 0
            &&& evaluate(host, bind_all(context, params, values), body, (depth - 1) as nat) is Some
            &&& run(host, entered, n_body) == settled(
                entered,
                evaluate(host, bind_all(context, params, values), body, (depth - 1) as nat)->0,
            )
        },
    ensures
        purpose matches PurposeView::Call { context, params, body } ==> {
            let result = evaluate(
                host,
                bind_all(context, params, values),
                body,
                (depth - 1) as nat,
            )->0;
            and_then(host, apply(base, purpose, values), n) == (Ran {
                vm: giving(base, result.outcome, current(base)),
                output: result.output,
                busy: true,
            })
        },
        !(purpose is Call) ==> and_then(host, apply(base, purpose, values), n) == (Ran {
            vm: giving(base, serve_builtin(host, purpose, values).outcome, current(base)),
            output: serve_builtin(host, purpose, values).output,
            busy: true,
        }),
{
    lemma_with_current_same(base);
    match purpose {
        PurposeView::Call { context, params, body } => {
            let scope = bind_all(context, params, values);
            let entered = go(
                push(VMView { scopes: base.scopes.push(scope), ..base }, FrameView::Leave),
                body,
            ).vm;
            let result = evaluate(host, scope, body, (depth - 1) as nat)->0;
            let ended = run(host, entered, n_body).vm;
            lemma_run_then_one(host, entered, n_body);
            assert(ended.frames.drop_last() =~= base.frames);
            assert(ended.scopes.drop_last() =~= base.scopes);
            n_body + 1
        },
        _ => {
            0
        },
    }
}

/// The machine evaluates a node as `evaluate` says.
///
/// From any state in which `node` is to be evaluated, the machine comes in `n`
/// steps to the state in which the outcome is at hand; the work that waited
/// still waits.
pub proof fn lemma_evaluate(host: Host, vm: VMView, node: NodeView, depth: nat) -> (n: nat)
    requires
        vm.control == ControlView::Eval(node),
        evaluate(host, current(vm), node, depth) is Some,
    ensures
        run(host, vm, n) == settled(vm, evaluate(host, current(vm), node, depth)->0),
    decreases depth, node, 0nat,
{
    let env = current(vm);
    lemma_with_current_same(vm);
    match node {
        NodeView::List(items) if items.len() > 0 => {
            let s1 = go(push(vm, FrameView::Callee { args: items.skip(1) }), items[0]).vm;
            let n1 = lemma_evaluate(host, s1, items[0], depth);
            let head = evaluate(host, env, items[0], depth)->0;
            let s2 = giving(s1, head.outcome, head.env);
            let base = VMView { frames: vm.frames, ..s2 };
            assert(s2.frames.drop_last() =~= vm.frames);
            let n2 = lemma_call(host, base, head.outcome, items, depth);
            let c = call(host, head.env, head.outcome, items, depth)->0;
            lemma_with_current_twice(vm, head.env, c.env);
            lemma_run_append(host, s1, n1, 1 + n2);
            (1 + (n1 + (1 + n2))) as nat
        },
        _ => {
            lemma_run_one(host, vm);
            1
        },
    }
}

/// The machine calls as `call` says.
proof fn lemma_call(
    host: Host,
    base: VMView,
    callee: Option<ValueView>,
    items: Seq<NodeView>,
    depth: nat,
) -> (n: nat)
    requires
        items.len() > 0,
        call(host, current(base), callee, items, depth) is Some,
    ensures
        and_then(host, eval_call(base, callee, items.skip(1)), n) == settled(
            base,
            call(host, current(base), callee, items, depth)->0,
        ),
    decreases depth, items, items.len() + 2,
{
    let env = current(base);
    lemma_with_current_same(base);
    match callee {
        Some(ValueView::Function { context, args: params, body }) => {
            lemma_gather(host, base, PurposeView::Call { context, params, body }, items, depth)
        },
        Some(ValueView::BuiltinFunction(builtin)) => match builtin {
            Builtin::Define => {
                if items.len() == 3 && items[1] is Atom {
                    let name = items[1]->Atom_0;
                    let s1 = go(push(base, FrameView::Bind { name }), items[2]).vm;
                    let n1 = lemma_evaluate(host, s1, items[2], depth);
                    let value = evaluate(host, env, items[2], depth)->0;
                    let s2 = run(host, s1, n1).vm;
                    assert(s2.frames.drop_last() =~= base.frames);
                    lemma_run_then_one(host, s1, n1);
                    let c = call(host, env, callee, items, depth)->0;
                    if value.outcome is Some {
                        if base.scopes.len() > 0 {
                            let last = base.scopes.len() - 1;
                            assert(base.scopes.update(last, value.env).update(
                                last,
                                value.env.insert(name, value.outcome->0),
                            ) =~= base.scopes.update(last, c.env));
                        }
                    }
                    n1 + 1
                } else {
                    0
                }
            },
            Builtin::Lambda => 0,
            Builtin::Add => lemma_gather(
                host,
                base,
                PurposeView::Arith(Operator::Add),
                items,
                depth,
            ),
            Builtin::Sub => lemma_gather(
                host,
                base,
                PurposeView::Arith(Operator::Sub),
                items,
                depth,
            ),
            Builtin::Mul => lemma_gather(
                host,
                base,
                PurposeView::Arith(Operator::Mul),
                items,
                depth,
            ),
            Builtin::Div => lemma_gather(
                host,
                base,
                PurposeView::Arith(Operator::Div),
                items,
                depth,
            ),
            Builtin::Print => lemma_gather(host, base, PurposeView::Print, items, depth),
            Builtin::Do => lemma_gather(host, base, PurposeView::Do, items, depth),
        },
        _ => 0,
    }
}

/// The machine evaluates arguments and serves their purpose as `gather` says.
proof fn lemma_gather(
    host: Host,
    base: VMView,
    purpose: PurposeView,
    items: Seq<NodeView>,
    depth: nat,
) -> (n: nat)
    requires
        items.len() > 0,
        gather(host, current(base), purpose, items, depth) is Some,
    ensures
        and_then(host, eval_args(base, purpose, items.skip(1)), n) == settled(
            base,
            gather(host, current(base), purpose, items, depth)->0,
        ),
    decreases depth, items, items.len() + 1,
{
    let env = current(base);
    let nodes = items.skip(1);
    let args = evaluate_args(host, env, items, 1, depth)->0;
    if items.len() == 1 {
        let values = Seq::<ValueView>::empty();
        let n_body = match purpose {
            PurposeView::Call { context, params, body } => {
                let entered = go(
                    push(
                        VMView {
                            scopes: base.scopes.push(bind_all(context, params, values)),
                            ..base
                        },
                        FrameView::Leave,
                    ),
                    body,
                ).vm;
                lemma_evaluate(host, entered, body, (depth - 1) as nat)
            },
            _ => 0,
        };
        let n = lemma_apply(host, base, purpose, values, depth, n_body);
        n
    } else {
        let s1 = go(
            push(base, FrameView::Args { purpose, nodes, values: Seq::empty() }),
            nodes[0],
        ).vm;
        assert(s1.frames.drop_last() =~= base.frames);
        let n1 = lemma_args(host, s1, purpose, items, 1, Seq::empty(), depth);
        let s2 = run(host, s1, n1).vm;
        match args.values {
            None => {
                n1
            },
            Some(values) => {
                lemma_with_current_twice(base, args.env, args.env);
                assert(values.drop_last().push(values.last()) =~= values);
                assert(s2.frames.drop_last() =~= base.frames);
                let rest = VMView { frames: s2.frames.drop_last(), ..s2 };
                let n_body = match purpose {
                    PurposeView::Call { context, params, body } => {
                        let entered = go(
                            push(
                                VMView {
                                    scopes: rest.scopes.push(bind_all(context, params, values)),
                                    ..rest
                                },
                                FrameView::Leave,
                            ),
                            body,
                        ).vm;
                        lemma_evaluate(host, entered, body, (depth - 1) as nat)
                    },
                    _ => 0,
                };
                let n2 = lemma_apply(host, rest, purpose, values, depth, n_body);
                lemma_run_append(host, s1, n1, 1 + n2);
                (n1 + (1 + n2)) as nat
            },
        }
    }
}

/// The machine evaluates arguments from left to right as `evaluate_args` says.
///
/// It starts where the argument at `from` is to be evaluated and the values of
/// those before it are in the frame. Where one fails, it ends with the failure at
/// hand and the frame gone; otherwise with the last value at hand and the others
/// in the frame.
proof fn lemma_args(
    host: Host,
    vm: VMView,
    purpose: PurposeView,
    items: Seq<NodeView>,
    from: nat,
    values: Seq<ValueView>,
    depth: nat,
) -> (n: nat)
    requires
        1 <= from < items.len(),
        vm.control == ControlView::Eval(items[from as int]),
        vm.frames.len() > 0,
        vm.frames.last() == (FrameView::Args { purpose, nodes: items.skip(1), values }),
        values.len() == from - 1,
        evaluate_args(host, current(vm), items, from, depth) is Some,
    ensures
        ({
            let args = evaluate_args(host, current(vm), items, from, depth)->0;
            let base = VMView { frames: vm.frames.drop_last(), ..vm };
            &&& args.values is None ==> run(host, vm, n) == (Ran {
                vm: giving(base, None, args.env),
                output: args.output,
                busy: true,
            })
            &&& args.values is Some ==> args.values->0.len() == items.len() - from && run(
                host,
                vm,
                n,
            ) == (Ran {
                vm: VMView {
                    frames: base.frames.push(
                        FrameView::Args {
                            purpose,
                            nodes: items.skip(1),
                            values: values + args.values->0.drop_last(),
                        },
                    ),
                    ..giving(base, Some(args.values->0.last()), args.env)
                },
                output: args.output,
                busy: true,
            })
        }),
    decreases depth, items, items.len() - from,
{
    let env = current(vm);
    let nodes = items.skip(1);
    let base = VMView { frames: vm.frames.drop_last(), ..vm };
    let n1 = lemma_evaluate(host, vm, items[from as int], depth);
    let first = evaluate(host, env, items[from as int], depth)->0;
    let s1 = run(host, vm, n1).vm;
    let rest = VMView { frames: s1.frames.drop_last(), ..s1 };
    match first.outcome {
        None => {
            lemma_run_then_one(host, vm, n1);
            n1 + 1
        },
        Some(value) => {
            let more = evaluate_args(host, first.env, items, from + 1, depth)->0;
            if from + 1 < items.len() {
                let values1 = values.push(value);
                let s2 = go(
                    push(rest, FrameView::Args { purpose, nodes, values: values1 }),
                    nodes[values1.len() as int],
                ).vm;
                assert(s2.frames.drop_last() =~= base.frames);
                let n2 = lemma_args(host, s2, purpose, items, from + 1, values1, depth);
                lemma_run_append(host, vm, n1, 1 + n2);
                lemma_with_current_twice(vm, first.env, more.env);
                match more.values {
                    None => {},
                    Some(later) => {
                        let all = seq![value] + later;
                        assert(values1 + later.drop_last() =~= values + all.drop_last());
                    },
                }
                (n1 + (1 + n2)) as nat
            } else {
                let all = seq![value];
                assert(base.frames.push(vm.frames.last()) =~= vm.frames);
                n1
            }
        },
    }
}

/// The machine computes what `evaluate` says.
///
/// Set to evaluate `node` in the root environment `root`, and served by a host
/// with the arithmetic `host`, the machine takes `n` steps, during which it hands
/// out exactly the output of the evaluation; with one step more it is at rest
/// and reports the outcome, and its root environment is the one that the
/// evaluation leaves.
pub proof fn theorem_machine_evaluates(host: Host, root: Env, node: NodeView, depth: nat) -> (n:
    nat)
    requires
        evaluate(host, root, node, depth) is Some,
    ensures
        ({
            let evaluated = evaluate(host, root, node, depth)->0;
            let ran = run(host, load(root, node), n);
            &&& ran.output == evaluated.output
            &&& ran.busy
            &&& step(ran.vm) == (Moved {
                vm: idle(evaluated.env),
                step: StepView::Finished(evaluated.outcome),
            })
        }),
{
    lemma_evaluate(host, load(root, node), node, depth)
}

/// The machine on a numeral: it asks the host once, and what the host answers is
/// the outcome. Nothing is written and the root environment stays as it is.
pub proof fn lemma_machine_evaluates_numeral(host: Host, root: Env, numeral: Seq<char>)
    ensures
        step(load(root, NodeView::Number(numeral))).step == StepView::Round(numeral),
        run(host, load(root, NodeView::Number(numeral)), 1).output == Seq::<PieceView>::empty(),
        step(run(host, load(root, NodeView::Number(numeral)), 1).vm) == (Moved {
            vm: idle(root),
            step: StepView::Finished(Some(ValueView::Number((host.round)(numeral)))),
        }),
{
    let vm = load(root, NodeView::Number(numeral));
    lemma_run_one(host, vm);
}

} // verus!
