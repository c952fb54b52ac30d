//! The operations on environments: `define` and `lambda`.

use vstd::prelude::*;
use crate::eval::semantics;
use crate::eval::value::{name_views, Context, Value};
use crate::eval::vm::{Frame, Step, VM};
use crate::parser::{lemma_list_view, node_views, Node, NodeView};

verus! {

/// `define`: with a name and a node, starts to evaluate the node; fails
/// otherwise. See `semantics::define`.
pub fn define(vm: &mut VM, args: Vec<Node>) -> (step: Step)
    ensures
        final(vm)@ == semantics::define(old(vm)@, node_views(args@)).vm,
        step@ == semantics::define(old(vm)@, node_views(args@)).step,
{
    let mut args = args;
    if args.len() != 2 {
        return vm.give(None);
    }
    let value = args.remove(1);
    let first = args.remove(0);
    match first {
        Node::Atom(name) => {
            vm.push(Frame::Bind { name });
            vm.go(value)
        },
        _ => vm.give(None),
    }
}

/// The end of a `define`: see `semantics::defined`.
pub fn defined(vm: &mut VM, name: String, outcome: Option<Value>) -> (step: Step)
    ensures
        final(vm)@ == semantics::defined(old(vm)@, name@, outcome.deep_view()).vm,
        step@ == semantics::defined(old(vm)@, name@, outcome.deep_view()).step,
{
    match outcome {
        Some(value) => {
            vm.bind(name, value);
        },
        None => {},
    }
    vm.give(Some(Value::nil()))
}

/// `lambda`: with a list of names and a body, the function that holds them and a
/// copy of `ctx`; nothing otherwise. See `semantics::lambda`.
pub fn lambda(ctx: &Context, args: &Vec<Node>) -> (function: Option<Value>)
    ensures
        function.deep_view() == semantics::lambda(ctx@, node_views(args@)),
{
    if args.len() != 2 {
        return None;
    }
    let items = match &args[0] {
        Node::List(items) => items,
        _ => {
            return None;
        },
    };
    proof {
        lemma_list_view(*items);
    }
    let mut names: Vec<String> = Vec::new();
    let mut i: usize = 0;
    while i < items.len()
        invariant
            i <= items.len(),
            names@.len() == i,
            args.len() == 2,
            node_views(args@)[0] == NodeView::List(node_views(items@)),
            forall|j: int| 0 <= j < i ==> (#[trigger] items@[j]@) is Atom,
            forall|j: int| 0 <= j < i ==> names@[j]@ == items@[j]@->Atom_0,
        decreases items.len() - i,
    {
        match &items[i] {
            Node::Atom(name) => {
                names.push(name.clone());
            },
            _ => {
                assert(!(node_views(items@)[i as int] is Atom));
                return None;
            },
        }
        i += 1;
    }
    let context = ctx.clone();
    let body = args[1].clone();
    proof {
        assert(name_views(names@) =~= Seq::new(
            node_views(items@).len(),
            |i: int| node_views(items@)[i]->Atom_0,
        ));
    }
    Some(Value::Function { context, args: names, body })
}

} // verus!
