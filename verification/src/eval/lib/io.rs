//! Output.

use vstd::prelude::*;
use crate::eval::semantics;
use crate::eval::value::{display_each, value_views, Value};
use crate::eval::vm::{Step, VM};

verus! {

/// The end of a `print`: hands the display forms of `values` to the host. See
/// `semantics::print`.
pub fn print(vm: &mut VM, values: Vec<Value>) -> (step: Step)
    ensures
        final(vm)@ == semantics::print(old(vm)@, value_views(values@)).vm,
        step@ == semantics::print(old(vm)@, value_views(values@)).step,
{
    let pieces = display_each(&values);
    vm.give(Some(Value::nil()));
    Step::Print(pieces)
}

} // verus!
