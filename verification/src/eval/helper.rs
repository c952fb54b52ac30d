//! The evaluation of arguments.

use vstd::prelude::*;
use crate::eval::lib::arith::do_arith;
use crate::eval::lib::io::print;
use crate::eval::lib::run::do_;
use crate::eval::semantics;
use crate::eval::value::{name_views, value_views, Context, Value, ValueView};
use crate::eval::vm::{Frame, Purpose, Step, VM};
use crate::parser::{node_views, Node};

verus! {

/// Starts to evaluate the arguments `nodes` for `purpose`: see
/// `semantics::eval_args`.
pub fn eval_args(vm: &mut VM, purpose: Purpose, nodes: Vec<Node>) -> (step: Step)
    ensures
        final(vm)@ == semantics::eval_args(old(vm)@, purpose@, node_views(nodes@)).vm,
        step@ == semantics::eval_args(old(vm)@, purpose@, node_views(nodes@)).step,
{
    if nodes.len() == 0 {
        let values: Vec<Value> = Vec::new();
        apply(vm, purpose, values)
    } else {
        let first = nodes[0].clone();
        let values: Vec<Value> = Vec::new();
        assert(value_views(values@) =~= Seq::<ValueView>::empty());
        vm.push(Frame::Args { purpose, nodes, values });
        vm.go(first)
    }
}

/// Takes the outcome of one argument: see `semantics::next_arg`.
pub fn next_arg(
    vm: &mut VM,
    purpose: Purpose,
    nodes: Vec<Node>,
    values: Vec<Value>,
    outcome: Option<Value>,
) -> (step: Step)
    ensures
        final(vm)@ == semantics::next_arg(
            old(vm)@,
            purpose@,
            node_views(nodes@),
            value_views(values@),
            outcome.deep_view(),
        ).vm,
        step@ == semantics::next_arg(
            old(vm)@,
            purpose@,
            node_views(nodes@),
            value_views(values@),
            outcome.deep_view(),
        ).step,
{
    let mut values = values;
    match outcome {
        None => vm.give(None),
        Some(value) => {
            let ghost before = value_views(values@);
            values.push(value);
            assert(value_views(values@) =~= before.push(value@));
            if values.len() < nodes.len() {
                let next = nodes[values.len()].clone();
                vm.push(Frame::Args { purpose, nodes, values });
                vm.go(next)
            } else {
                apply(vm, purpose, values)
            }
        },
    }
}

/// Serves `purpose` with the values of all arguments: see `semantics::apply`.
pub fn apply(vm: &mut VM, purpose: Purpose, values: Vec<Value>) -> (step: Step)
    ensures
        final(vm)@ == semantics::apply(old(vm)@, purpose@, value_views(values@)).vm,
        step@ == semantics::apply(old(vm)@, purpose@, value_views(values@)).step,
{
    match purpose {
        Purpose::Call { context, params, body } => {
            let scope = bind_all(context, &params, &values);
            vm.enter(scope);
            vm.push(Frame::Leave);
            vm.go(body)
        },
        Purpose::Arith(operator) => do_arith(vm, operator, values),
        Purpose::Print => print(vm, values),
        Purpose::Do => do_(vm, values),
    }
}

/// The environment of a call: see `semantics::bind_all`.
pub fn bind_all(context: Context, params: &Vec<String>, values: &Vec<Value>) -> (scope: Context)
    ensures
        scope@ == semantics::bind_all(context@, name_views(params@), value_views(values@)),
{
    let mut scope = context;
    let n = if params.len() <= values.len() {
        params.len()
    } else {
        values.len()
    };
    let mut i: usize = 0;
    while i < n
        invariant
            i <= n,
            n <= params.len(),
            n <= values.len(),
            scope@ == semantics::bind_first(
                context@,
                name_views(params@),
                value_views(values@),
                i as nat,
            ),
        decreases n - i,
    {
        scope.insert(params[i].clone(), values[i].clone());
        i += 1;
    }
    scope
}

} // verus!
