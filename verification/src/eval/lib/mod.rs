//! The builtin operations.

pub mod arith;
pub mod context;
pub mod io;
pub mod run;

use vstd::prelude::*;
use vstd::string::StringExecFns;
use crate::eval::helper::eval_args;
use crate::eval::semantics;
use crate::eval::semantics::Env;
use crate::eval::value::{Builtin, Context, Value, ValueView};
use crate::eval::vm::{Purpose, Step, VM};
use crate::parser::{node_views, Node};

verus! {

/// `env` with `builtin` bound to its name.
pub open spec fn with_builtin(env: Env, builtin: Builtin) -> Env {
    env.insert(builtin.spec_name(), ValueView::BuiltinFunction(builtin))
}

/// `env` with each builtin bound to its name.
pub open spec fn with_builtins(env: Env) -> Env {
    let env = with_builtin(env, Builtin::Define);
    let env = with_builtin(env, Builtin::Lambda);
    let env = with_builtin(env, Builtin::Add);
    let env = with_builtin(env, Builtin::Sub);
    let env = with_builtin(env, Builtin::Mul);
    let env = with_builtin(env, Builtin::Div);
    let env = with_builtin(env, Builtin::Print);
    with_builtin(env, Builtin::Do)
}

/// No two builtins have the same name.
pub proof fn lemma_names_differ(a: Builtin, b: Builtin)
    ensures
        a.spec_name() == b.spec_name() ==> a == b,
{
    reveal_strlit("define");
    reveal_strlit("lambda");
    reveal_strlit("+");
    reveal_strlit("-");
    reveal_strlit("*");
    reveal_strlit("/");
    reveal_strlit("print");
    reveal_strlit("do");
    if a != b {
        let x = a.spec_name();
        let y = b.spec_name();
        if x.len() == y.len() {
            assert(x[0] != y[0]);
        }
    }
}

/// After registration every builtin is bound to its name, and whatever else was
/// bound stays bound. Registering twice is registering once.
pub proof fn lemma_builtins_are_bound(env: Env, builtin: Builtin)
    ensures
        with_builtins(env).contains_key(builtin.spec_name()),
        with_builtins(env)[builtin.spec_name()] == ValueView::BuiltinFunction(builtin),
        forall|name: Seq<char>| #[trigger]
            env.contains_key(name) ==> with_builtins(env).contains_key(name),
        with_builtins(with_builtins(env)) == with_builtins(env),
{
    lemma_names_differ(builtin, Builtin::Lambda);
    lemma_names_differ(builtin, Builtin::Add);
    lemma_names_differ(builtin, Builtin::Sub);
    lemma_names_differ(builtin, Builtin::Mul);
    lemma_names_differ(builtin, Builtin::Div);
    lemma_names_differ(builtin, Builtin::Print);
    lemma_names_differ(builtin, Builtin::Do);
}

/// Binds `builtin` to its name in `ctx`.
fn register_builtin(ctx: &mut Context, builtin: Builtin)
    ensures
        final(ctx)@ == with_builtin(old(ctx)@, builtin),
{
    ctx.insert(String::from_str(builtin.name()), Value::BuiltinFunction(builtin));
}

/// Binds each builtin to its name in `ctx`.
pub fn register(ctx: &mut Context)
    ensures
        final(ctx)@ == with_builtins(old(ctx)@),
{
    register_builtin(ctx, Builtin::Define);
    register_builtin(ctx, Builtin::Lambda);
    register_builtin(ctx, Builtin::Add);
    register_builtin(ctx, Builtin::Sub);
    register_builtin(ctx, Builtin::Mul);
    register_builtin(ctx, Builtin::Div);
    register_builtin(ctx, Builtin::Print);
    register_builtin(ctx, Builtin::Do);
}

/// Hands the arguments `args`, as they are, to `builtin`: see
/// `semantics::call_builtin`.
pub fn call_builtin(vm: &mut VM, builtin: Builtin, args: Vec<Node>) -> (step: Step)
    ensures
        final(vm)@ == semantics::call_builtin(old(vm)@, builtin, node_views(args@)).vm,
        step@ == semantics::call_builtin(old(vm)@, builtin, node_views(args@)).step,
{
    match builtin {
        Builtin::Define => context::define(vm, args),
        Builtin::Lambda => {
            let function = context::lambda(vm.current(), &args);
            vm.give(function)
        },
        Builtin::Add => crate::eval::lib::arith::add(vm, args),
        Builtin::Sub => crate::eval::lib::arith::sub(vm, args),
        Builtin::Mul => crate::eval::lib::arith::mul(vm, args),
        Builtin::Div => crate::eval::lib::arith::div(vm, args),
        Builtin::Print => eval_args(vm, Purpose::Print, args),
        Builtin::Do => eval_args(vm, Purpose::Do, args),
    }
}

} // verus!
