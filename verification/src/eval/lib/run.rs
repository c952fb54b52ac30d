//! Sequencing.

use vstd::prelude::*;
use crate::eval::semantics;
use crate::eval::value::{value_views, Value};
use crate::eval::vm::{Step, VM};

verus! {

/// The end of a `do`: its last value, if it has one. See `semantics::do_`.
pub fn do_(vm: &mut VM, values: Vec<Value>) -> (step: Step)
    ensures
        final(vm)@ == semantics::do_(old(vm)@, value_views(values@)).vm,
        step@ == semantics::do_(old(vm)@, value_views(values@)).step,
{
    let mut values = values;
    let last = values.pop();
    vm.give(last)
}

} // verus!
