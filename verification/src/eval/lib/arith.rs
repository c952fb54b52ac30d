//! The four operations on numbers.

use vstd::prelude::*;
use crate::eval::helper::eval_args;
use crate::eval::semantics;
use crate::eval::semantics::{Operator, PurposeView};
use crate::eval::value::{value_views, Value};
use crate::eval::vm::{Control, Purpose, Step, VM};
use crate::parser::{node_views, Node};

verus! {

/// With exactly two values, both numbers, asks the host for the result of
/// `operator` on them; fails otherwise. See `semantics::do_arith`.
pub fn do_arith(vm: &mut VM, operator: Operator, values: Vec<Value>) -> (step: Step)
    ensures
        final(vm)@ == semantics::do_arith(old(vm)@, operator, value_views(values@)).vm,
        step@ == semantics::do_arith(old(vm)@, operator, value_views(values@)).step,
{
    if values.len() != 2 {
        return vm.give(None);
    }
    match (&values[0], &values[1]) {
        (Value::Number(a), Value::Number(b)) => {
            vm.control = Control::Compute(operator, *a, *b);
            Step::Compute(operator, *a, *b)
        },
        _ => vm.give(None),
    }
}

/// `+`: evaluates the arguments, then asks for the sum.
pub fn add(vm: &mut VM, args: Vec<Node>) -> (step: Step)
    ensures
        final(vm)@ == semantics::eval_args(
            old(vm)@,
            PurposeView::Arith(Operator::Add),
            node_views(args@),
        ).vm,
        step@ == semantics::eval_args(
            old(vm)@,
            PurposeView::Arith(Operator::Add),
            node_views(args@),
        ).step,
{
    eval_args(vm, Purpose::Arith(Operator::Add), args)
}

/// `-`: evaluates the arguments, then asks for the difference.
pub fn sub(vm: &mut VM, args: Vec<Node>) -> (step: Step)
    ensures
        final(vm)@ == semantics::eval_args(
            old(vm)@,
            PurposeView::Arith(Operator::Sub),
            node_views(args@),
        ).vm,
        step@ == semantics::eval_args(
            old(vm)@,
            PurposeView::Arith(Operator::Sub),
            node_views(args@),
        ).step,
{
    eval_args(vm, Purpose::Arith(Operator::Sub), args)
}

/// `*`: evaluates the arguments, then asks for the product.
pub fn mul(vm: &mut VM, args: Vec<Node>) -> (step: Step)
    ensures
        final(vm)@ == semantics::eval_args(
            old(vm)@,
            PurposeView::Arith(Operator::Mul),
            node_views(args@),
        ).vm,
        step@ == semantics::eval_args(
            old(vm)@,
            PurposeView::Arith(Operator::Mul),
            node_views(args@),
        ).step,
{
    eval_args(vm, Purpose::Arith(Operator::Mul), args)
}

/// `/`: evaluates the arguments, then asks for the quotient.
pub fn div(vm: &mut VM, args: Vec<Node>) -> (step: Step)
    ensures
        final(vm)@ == semantics::eval_args(
            old(vm)@,
            PurposeView::Arith(Operator::Div),
            node_views(args@),
        ).vm,
        step@ == semantics::eval_args(
            old(vm)@,
            PurposeView::Arith(Operator::Div),
            node_views(args@),
        ).step,
{
    eval_args(vm, Purpose::Arith(Operator::Div), args)
}

} // verus!
