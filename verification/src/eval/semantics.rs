//! What evaluation means.
//!
//! Evaluation is described as a machine that moves in small steps. Its state holds
//! the environments, the work that is still to be done (`frames`) and the work at
//! hand (`control`). `step` is the whole meaning of the language: it says, for any
//! state, what the next state is and what the machine tells its host.
//!
//! Three things the machine cannot do by itself: round a numeral to a binary64
//! number, compute with two numbers, and write text. It asks the host for the
//! first two, and waits until `resume` brings the answer; the third it hands over
//! and goes on.

use vstd::prelude::*;
use crate::eval::value::{display_all, nil, Builtin, PieceView, ValueView};
use crate::parser::NodeView;

verus! {

/// An environment, as a mathematical value.
pub type Env = Map<Seq<char>, ValueView>;

/// The four operations on numbers.
#[derive(Clone, Copy, Debug, PartialEq, Eq, Structural)]
pub enum Operator {
    Add,
    Sub,
    Mul,
    Div,
}

/// What a run of arguments is evaluated for.
pub enum PurposeView {
    /// A call of a function: its environment, its parameters and its body.
    Call { context: Env, params: Seq<Seq<char>>, body: NodeView },
    /// One of `+`, `-`, `*`, `/`.
    Arith(Operator),
    /// `print`.
    Print,
    /// `do`.
    Do,
}

/// Work that waits for a value.
pub enum FrameView {
    /// The head of a call is being evaluated; `args` are the arguments, not
    /// evaluated.
    Callee { args: Seq<NodeView> },
    /// The arguments `nodes` are being evaluated from left to right; `values` are
    /// the values of those that are done.
    Args { purpose: PurposeView, nodes: Seq<NodeView>, values: Seq<ValueView> },
    /// The value of a `define` is being evaluated.
    Bind { name: Seq<char> },
    /// The body of a function is being evaluated, in an environment of its own
    /// that goes when the body is done.
    Leave,
}

/// The work at hand.
pub enum ControlView {
    /// Nothing to do.
    Idle,
    /// A node to evaluate in the current environment.
    Eval(NodeView),
    /// The outcome of the last evaluation: a value, or none.
    Give(Option<ValueView>),
    /// Waiting for the host to round a numeral.
    Round(Seq<char>),
    /// Waiting for the host to compute with two numbers.
    Compute(Operator, u64, u64),
}

/// What the machine tells its host after a step.
pub enum StepView {
    /// There was nothing to do.
    Idle,
    /// The machine moved; there is more to do.
    Continue,
    /// The evaluation is over, with this outcome.
    Finished(Option<ValueView>),
    /// The host is asked for the binary64 number nearest to the numeral.
    Round(Seq<char>),
    /// The host is asked for the result of the operation on the two numbers.
    Compute(Operator, u64, u64),
    /// The host is asked to write the pieces, with nothing added.
    Print(Seq<PieceView>),
}

/// The state of the machine.
pub struct VMView {
    /// The root environment, which lives as long as the machine.
    pub root: Env,
    /// The environments of the function calls under way, the innermost last.
    pub scopes: Seq<Env>,
    /// The work that waits, the most recent last.
    pub frames: Seq<FrameView>,
    pub control: ControlView,
}

/// A step: the state it leads to and what the host is told.
pub struct Moved {
    pub vm: VMView,
    pub step: StepView,
}

/// The environment in which names are looked up and defined: that of the
/// innermost call, or the root where no call is under way.
pub open spec fn current(vm: VMView) -> Env {
    if vm.scopes.len() > 0 {
        vm.scopes.last()
    } else {
        vm.root
    }
}

/// The machine after `name` is bound to `value` in the current environment.
pub open spec fn bind(vm: VMView, name: Seq<char>, value: ValueView) -> VMView {
    if vm.scopes.len() > 0 {
        VMView {
            scopes: vm.scopes.update(vm.scopes.len() - 1, vm.scopes.last().insert(name, value)),
            ..vm
        }
    } else {
        VMView { root: vm.root.insert(name, value), ..vm }
    }
}

/// The machine with one more frame.
pub open spec fn push(vm: VMView, frame: FrameView) -> VMView {
    VMView { frames: vm.frames.push(frame), ..vm }
}

/// The machine goes on to evaluate `node`.
pub open spec fn go(vm: VMView, node: NodeView) -> Moved {
    Moved { vm: VMView { control: ControlView::Eval(node), ..vm }, step: StepView::Continue }
}

/// The machine has an outcome at hand.
pub open spec fn give(vm: VMView, outcome: Option<ValueView>) -> Moved {
    Moved { vm: VMView { control: ControlView::Give(outcome), ..vm }, step: StepView::Continue }
}

/// `env` with the first `n` parameters bound to the first `n` values, in order, so
/// that of two parameters of one name the later one counts.
pub open spec fn bind_first(
    env: Env,
    params: Seq<Seq<char>>,
    values: Seq<ValueView>,
    n: nat,
) -> Env
    decreases n,
{
    if n == 0 || n > params.len() || n > values.len() {
        env
    } else {
        bind_first(env, params, values, (n - 1) as nat).insert(params[n - 1], values[n - 1])
    }
}

/// The environment of a call: that of the function, with each parameter bound to
/// the value at the same place. Parameters without a value stay unbound, and values
/// without a parameter are dropped.
pub open spec fn bind_all(env: Env, params: Seq<Seq<char>>, values: Seq<ValueView>) -> Env {
    bind_first(
        env,
        params,
        values,
        if params.len() <= values.len() {
            params.len()
        } else {
            values.len()
        },
    )
}

/// Evaluating a node.
///
/// A name gives the value that it is bound to, or nothing where it is unbound. A
/// string gives itself. For a numeral the host is asked. A list is a call, see
/// `eval_list`.
pub open spec fn eval_in_context(vm: VMView, node: NodeView) -> Moved {
    match node {
        NodeView::Atom(name) => give(
            vm,
            if current(vm).contains_key(name) {
                Some(current(vm)[name])
            } else {
                None
            },
        ),
        NodeView::String(text) => give(vm, Some(ValueView::String(text))),
        NodeView::Number(numeral) => Moved {
            vm: VMView { control: ControlView::Round(numeral), ..vm },
            step: StepView::Round(numeral),
        },
        NodeView::List(items) => eval_list(vm, items),
    }
}

/// Evaluating a list: the empty list gives nil; of any other, the first item is
/// evaluated to find what to call, and the others wait as they are.
pub open spec fn eval_list(vm: VMView, items: Seq<NodeView>) -> Moved {
    if items.len() == 0 {
        give(vm, Some(nil()))
    } else {
        go(push(vm, FrameView::Callee { args: items.skip(1) }), items[0])
    }
}

/// Calling `callee` with the arguments `args`, which are not evaluated yet.
///
/// For a function the arguments are evaluated first. A builtin gets them as they
/// are. Nothing else can be called, and a head without a value makes a call
/// without a value.
pub open spec fn eval_call(vm: VMView, callee: Option<ValueView>, args: Seq<NodeView>) -> Moved {
    match callee {
        Some(ValueView::Function { context, args: params, body }) => eval_args(
            vm,
            PurposeView::Call { context, params, body },
            args,
        ),
        Some(ValueView::BuiltinFunction(builtin)) => call_builtin(vm, builtin, args),
        _ => give(vm, None),
    }
}

/// What each builtin does with its arguments.
pub open spec fn call_builtin(vm: VMView, builtin: Builtin, args: Seq<NodeView>) -> Moved {
    match builtin {
        Builtin::Define => define(vm, args),
        Builtin::Lambda => give(vm, lambda(current(vm), args)),
        Builtin::Add => eval_args(vm, PurposeView::Arith(Operator::Add), args),
        Builtin::Sub => eval_args(vm, PurposeView::Arith(Operator::Sub), args),
        Builtin::Mul => eval_args(vm, PurposeView::Arith(Operator::Mul), args),
        Builtin::Div => eval_args(vm, PurposeView::Arith(Operator::Div), args),
        Builtin::Print => eval_args(vm, PurposeView::Print, args),
        Builtin::Do => eval_args(vm, PurposeView::Do, args),
    }
}

/// `define` takes a name and a node. The node is evaluated, and `defined` does
/// the rest. Any other arguments make it fail.
pub open spec fn define(vm: VMView, args: Seq<NodeView>) -> Moved {
    if args.len() == 2 && args[0] is Atom {
        go(push(vm, FrameView::Bind { name: args[0]->Atom_0 }), args[1])
    } else {
        give(vm, None)
    }
}

/// The end of a `define`: the name is bound in the current environment if the
/// node had a value, and the outcome is nil either way.
pub open spec fn defined(vm: VMView, name: Seq<char>, outcome: Option<ValueView>) -> Moved {
    match outcome {
        Some(value) => give(bind(vm, name, value), Some(nil())),
        None => give(vm, Some(nil())),
    }
}

/// `lambda` takes a list of names and a body, and gives a function that holds
/// them with `env` as it is now. Any other arguments make it fail.
pub open spec fn lambda(env: Env, args: Seq<NodeView>) -> Option<ValueView> {
    if args.len() == 2 && args[0] is List && (forall|i: int|
        0 <= i < args[0]->List_0.len() ==> (#[trigger] args[0]->List_0[i]) is Atom) {
        Some(
            ValueView::Function {
                context: env,
                args: Seq::new(args[0]->List_0.len(), |i: int| args[0]->List_0[i]->Atom_0),
                body: args[1],
            },
        )
    } else {
        None
    }
}

/// Evaluating the arguments `nodes` for `purpose`, from left to right. Without
/// arguments the purpose is served at once.
pub open spec fn eval_args(vm: VMView, purpose: PurposeView, nodes: Seq<NodeView>) -> Moved {
    if nodes.len() == 0 {
        apply(vm, purpose, Seq::empty())
    } else {
        go(push(vm, FrameView::Args { purpose, nodes, values: Seq::empty() }), nodes[0])
    }
}

/// One argument is done. Without a value the whole call has none, and no further
/// argument is evaluated. With a value the next argument is evaluated, or the
/// purpose served if that was the last.
pub open spec fn next_arg(
    vm: VMView,
    purpose: PurposeView,
    nodes: Seq<NodeView>,
    values: Seq<ValueView>,
    outcome: Option<ValueView>,
) -> Moved {
    match outcome {
        None => give(vm, None),
        Some(value) => {
            let values = values.push(value);
            if values.len() < nodes.len() {
                go(push(vm, FrameView::Args { purpose, nodes, values }), nodes[values.len() as int])
            } else {
                apply(vm, purpose, values)
            }
        },
    }
}

/// All arguments have values: the purpose is served.
pub open spec fn apply(vm: VMView, purpose: PurposeView, values: Seq<ValueView>) -> Moved {
    match purpose {
        PurposeView::Call { context, params, body } => go(
            push(
                VMView { scopes: vm.scopes.push(bind_all(context, params, values)), ..vm },
                FrameView::Leave,
            ),
            body,
        ),
        PurposeView::Arith(operator) => do_arith(vm, operator, values),
        PurposeView::Print => print(vm, values),
        PurposeView::Do => do_(vm, values),
    }
}

/// The operation wants exactly two values, both numbers; then the host is asked.
pub open spec fn do_arith(vm: VMView, operator: Operator, values: Seq<ValueView>) -> Moved {
    if values.len() == 2 && values[0] is Number && values[1] is Number {
        Moved {
            vm: VMView {
                control: ControlView::Compute(operator, values[0]->Number_0, values[1]->Number_0),
                ..vm
            },
            step: StepView::Compute(operator, values[0]->Number_0, values[1]->Number_0),
        }
    } else {
        give(vm, None)
    }
}

/// `print` hands the display forms of its values to the host, with one space
/// between two values, and gives nil.
pub open spec fn print(vm: VMView, values: Seq<ValueView>) -> Moved {
    Moved { vm: give(vm, Some(nil())).vm, step: StepView::Print(display_all(values)) }
}

/// `do` gives its last value, and nothing where it has no arguments.
pub open spec fn do_(vm: VMView, values: Seq<ValueView>) -> Moved {
    give(
        vm,
        if values.len() > 0 {
            Some(values.last())
        } else {
            None
        },
    )
}

/// The end of a function's body: its environment goes, the outcome stays.
pub open spec fn leave(vm: VMView, outcome: Option<ValueView>) -> Moved {
    give(
        VMView {
            scopes: if vm.scopes.len() > 0 {
                vm.scopes.drop_last()
            } else {
                vm.scopes
            },
            ..vm
        },
        outcome,
    )
}

/// An outcome goes to the work that waited for it.
pub open spec fn resolve(vm: VMView, outcome: Option<ValueView>) -> Moved {
    if vm.frames.len() == 0 {
        Moved {
            vm: VMView { scopes: Seq::empty(), control: ControlView::Idle, ..vm },
            step: StepView::Finished(outcome),
        }
    } else {
        let rest = VMView { frames: vm.frames.drop_last(), ..vm };
        match vm.frames.last() {
            FrameView::Callee { args } => eval_call(rest, outcome, args),
            FrameView::Args { purpose, nodes, values } => next_arg(
                rest,
                purpose,
                nodes,
                values,
                outcome,
            ),
            FrameView::Bind { name } => defined(rest, name, outcome),
            FrameView::Leave => leave(rest, outcome),
        }
    }
}

/// One step of the machine.
///
/// While the machine waits for the host, a step changes nothing and asks again.
pub open spec fn step(vm: VMView) -> Moved {
    match vm.control {
        ControlView::Idle => Moved { vm, step: StepView::Idle },
        ControlView::Eval(node) => eval_in_context(vm, node),
        ControlView::Give(outcome) => resolve(vm, outcome),
        ControlView::Round(numeral) => Moved { vm, step: StepView::Round(numeral) },
        ControlView::Compute(operator, a, b) => Moved { vm, step: StepView::Compute(operator, a, b) },
    }
}

/// Whether the machine waits for a number from the host.
pub open spec fn waiting(vm: VMView) -> bool {
    vm.control is Round || vm.control is Compute
}

/// The host's answer: the number asked for is the outcome. Where the machine did
/// not ask, nothing changes.
pub open spec fn resume(vm: VMView, bits: u64) -> VMView {
    if waiting(vm) {
        VMView { control: ControlView::Give(Some(ValueView::Number(bits))), ..vm }
    } else {
        vm
    }
}

/// A machine at rest with the root environment `root`.
pub open spec fn idle(root: Env) -> VMView {
    VMView { root, scopes: Seq::empty(), frames: Seq::empty(), control: ControlView::Idle }
}

/// A machine about to evaluate `node` in the root environment `root`.
pub open spec fn load(root: Env, node: NodeView) -> VMView {
    VMView { root, scopes: Seq::empty(), frames: Seq::empty(), control: ControlView::Eval(node) }
}

} // verus!
