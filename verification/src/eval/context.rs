//! Environments.

pub use crate::eval::value::Context;
use vstd::prelude::*;
use crate::eval::value::ValueView;

verus! {

/// An environment without bindings.
pub fn new() -> (context: Context)
    ensures
        context@ == Map::<Seq<char>, ValueView>::empty(),
{
    Context::new()
}

} // verus!
