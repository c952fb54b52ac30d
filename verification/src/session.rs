//! A whole program: its forms are read and evaluated one after the other.

use vstd::prelude::*;
use crate::eval::correctness::{lemma_evaluate, run, serve};
use crate::eval::evaluation::{evaluate, Evaluated, Host};
use crate::eval::lib::with_builtins;
use crate::eval::semantics;
use crate::eval::semantics::{Env, StepView, VMView};
use crate::eval::value::{PieceView, Value, ValueView};
use crate::eval::vm::{Step, VM};
use crate::lexer::{Lexer, TokenView};
use crate::parser::{items_at, lemma_node_uses_tokens, list_at, node_at, tokens, Parser};

verus! {

/// The state of a session, as a mathematical value.
pub struct SessionView {
    /// The tokens of the program that are not parsed yet.
    pub tokens: Seq<TokenView>,
    /// The machine that evaluates the forms.
    pub vm: VMView,
    /// The value of the last form that had one.
    pub last: Option<ValueView>,
}

/// A step of a session: the state it leads to and what the host is told.
pub struct Advanced {
    pub session: SessionView,
    pub step: StepView,
}

/// One step of a session.
///
/// While the machine is at work, the session's step is the machine's; when the
/// machine has finished a form, its value, if it has one, is kept as the last,
/// and the session goes on. While the machine is at rest, the next form is
/// parsed and handed to it. When no form can be parsed the program is over: the
/// session reports the last value, and will do so again at every further step.
/// A form that fails is passed over; forms behind a place where parsing fails are
/// never evaluated.
pub open spec fn advance(session: SessionView) -> Advanced {
    if session.vm.control is Idle {
        let parsed = node_at(session.tokens);
        match parsed.node {
            Some(node) => Advanced {
                session: SessionView {
                    tokens: parsed.rest,
                    vm: semantics::load(session.vm.root, node),
                    ..session
                },
                step: StepView::Continue,
            },
            None => Advanced {
                session: SessionView { tokens: parsed.rest, ..session },
                step: StepView::Finished(session.last),
            },
        }
    } else {
        let moved = semantics::step(session.vm);
        match moved.step {
            StepView::Finished(outcome) => Advanced {
                session: SessionView {
                    vm: moved.vm,
                    last: if outcome is Some {
                        outcome
                    } else {
                        session.last
                    },
                    ..session
                },
                step: StepView::Continue,
            },
            step => Advanced { session: SessionView { vm: moved.vm, ..session }, step },
        }
    }
}

/// Once no form can be parsed, none ever can: the end of a program is final.
pub proof fn lemma_end_is_final(tokens: Seq<TokenView>)
    requires
        node_at(tokens).node is None,
    ensures
        node_at(node_at(tokens).rest).node is None,
{
    lemma_end_of_list(tokens);
}

proof fn lemma_end_of_list(tokens: Seq<TokenView>)
    ensures
        items_at(tokens).rest.len() == 0 || items_at(tokens).rest[0]
            == TokenView::RightParen,
        list_at(tokens).node is None ==> list_at(tokens).rest.len()
            == 0,
        node_at(tokens).node is None ==> node_at(tokens).rest.len() == 0 || node_at(
            tokens,
        ).rest[0] == TokenView::RightParen,
    decreases tokens.len(),
{
    if tokens.len() > 0 {
        lemma_end_of_list(tokens.skip(1));
        let first = node_at(tokens);
        lemma_node_uses_tokens(tokens);
        if first.node is Some && first.rest.len() < tokens.len() {
            lemma_end_of_list(first.rest);
        }
    }
}

/// A program that is being evaluated, form by form.
pub struct Session {
    parser: Parser,
    vm: VM,
    last: Option<Value>,
}

impl View for Session {
    type V = SessionView;

    closed spec fn view(&self) -> SessionView {
        SessionView { tokens: self.parser@, vm: self.vm@, last: self.last.deep_view() }
    }
}

impl Session {
    /// A session at the start of the program `source`, with a machine that knows
    /// the builtins and nothing else.
    pub fn new(source: &str) -> (session: Session)
        ensures
            session@ == (SessionView {
                tokens: tokens(source@),
                vm: semantics::idle(with_builtins(Map::empty())),
                last: None,
            }),
    {
        let mut vm = VM::new();
        vm.load_stdlib();
        Session { parser: Parser::new(Lexer::new(source)), vm, last: None }
    }

    /// One step of the session.
    pub fn step(&mut self) -> (step: Step)
        ensures
            final(self)@ == advance(old(self)@).session,
            step@ == advance(old(self)@).step,
    {
        if self.vm.idle() {
            match self.parser.parse() {
                Some(node) => {
                    self.vm.eval(&node);
                    Step::Continue
                },
                None => Step::Finished(clone_outcome(&self.last)),
            }
        } else {
            match self.vm.step() {
                Step::Finished(outcome) => {
                    if outcome.is_some() {
                        self.last = outcome;
                    }
                    Step::Continue
                },
                step => step,
            }
        }
    }

    /// Takes the host's answer, and says whether the machine had asked.
    pub fn resume(&mut self, bits: u64) -> (asked: bool)
        ensures
            asked == semantics::waiting(old(self)@.vm),
            final(self)@ == (SessionView {
                vm: semantics::resume(old(self)@.vm, bits),
                ..old(self)@
            }),
    {
        self.vm.resume(bits)
    }

    /// The machine of the session.
    pub fn vm(&self) -> (vm: &VM)
        ensures
            vm@ == self@.vm,
    {
        &self.vm
    }
}

/// A copy of an outcome.
pub fn clone_outcome(outcome: &Option<Value>) -> (copy: Option<Value>)
    ensures
        copy.deep_view() == outcome.deep_view(),
{
    match outcome {
        Some(value) => Some(value.clone()),
        None => None,
    }
}

/// What a program comes to.
///
/// The forms are parsed and evaluated one after the other, each in the
/// environment that the one before it left. The outcome is the value of the last
/// form that had one, or `last` where none had; a form that fails is passed over.
/// The program ends where no form can be parsed. The result is `None` only where
/// a call of a function would nest deeper than `depth` allows.
pub open spec fn program(
    host: Host,
    env: Env,
    tokens: Seq<TokenView>,
    last: Option<ValueView>,
    depth: nat,
) -> Option<Evaluated>
    decreases tokens.len(),
{
    let parsed = node_at(tokens);
    match parsed.node {
        Some(node) if parsed.rest.len() < tokens.len() => match evaluate(host, env, node, depth) {
            None => None,
            Some(first) => match program(
                host,
                first.env,
                parsed.rest,
                if first.outcome is Some {
                    first.outcome
                } else {
                    last
                },
                depth,
            ) {
                None => None,
                Some(rest) => Some(
                    Evaluated {
                        outcome: rest.outcome,
                        env: rest.env,
                        output: first.output + rest.output,
                    },
                ),
            },
        },
        _ => Some(Evaluated { outcome: last, env, output: Seq::empty() }),
    }
}

/// A stretch of a session: the state reached and what was written on the way.
pub struct Attended {
    pub session: SessionView,
    pub output: Seq<PieceView>,
}

/// One step of a session, with the host's part: it answers a request with its
/// arithmetic, and writes what it is given to write.
pub open spec fn attend(host: Host, session: SessionView) -> Attended {
    let advanced = advance(session);
    match advanced.step {
        StepView::Round(numeral) => Attended {
            session: SessionView {
                vm: semantics::resume(advanced.session.vm, (host.round)(numeral)),
                ..advanced.session
            },
            output: Seq::empty(),
        },
        StepView::Compute(operator, a, b) => Attended {
            session: SessionView {
                vm: semantics::resume(advanced.session.vm, (host.compute)(operator, a, b)),
                ..advanced.session
            },
            output: Seq::empty(),
        },
        StepView::Print(pieces) => Attended { session: advanced.session, output: pieces },
        _ => Attended { session: advanced.session, output: Seq::empty() },
    }
}

/// `n` steps of a session, with the host's part after each.
pub open spec fn attend_many(host: Host, session: SessionView, n: nat) -> Attended
    decreases n,
{
    if n == 0 {
        Attended { session, output: Seq::empty() }
    } else {
        let first = attend(host, session);
        let rest = attend_many(host, first.session, (n - 1) as nat);
        Attended { session: rest.session, output: first.output + rest.output }
    }
}

/// Attending `a` steps and then `b` steps is attending `a + b` steps.
pub proof fn lemma_attend_append(host: Host, session: SessionView, a: nat, b: nat)
    ensures
        attend_many(host, session, a + b) == (Attended {
            session: attend_many(host, attend_many(host, session, a).session, b).session,
            output: attend_many(host, session, a).output + attend_many(
                host,
                attend_many(host, session, a).session,
                b,
            ).output,
        }),
    decreases a,
{
    if a == 0 {
    } else {
        let first = attend(host, session);
        lemma_attend_append(host, first.session, (a - 1) as nat, b);
        let mid = attend_many(host, first.session, (a - 1) as nat);
        let end = attend_many(host, mid.session, b);
        assert(first.output + (mid.output + end.output) =~= (first.output + mid.output)
            + end.output);
    }
}

/// While the machine is at work, the steps of the session are the steps of the
/// machine.
pub proof fn lemma_attend_busy(host: Host, session: SessionView, n: nat)
    requires
        !(session.vm.control is Idle),
        run(host, session.vm, n).busy,
    ensures
        attend_many(host, session, n) == (Attended {
            session: SessionView { vm: run(host, session.vm, n).vm, ..session },
            output: run(host, session.vm, n).output,
        }),
        !(run(host, session.vm, n).vm.control is Idle),
    decreases n,
{
    if n > 0 {
        let first = serve(host, session.vm);
        lemma_attend_busy(host, SessionView { vm: first.vm, ..session }, (n - 1) as nat);
    }
}

/// A session computes what `program` says.
///
/// Begun with the machine at rest in the environment `env`, and attended by a
/// host with the arithmetic `host`, the session takes `n` steps, during which it
/// hands out exactly the output of the program; then the machine is at rest in
/// the environment that the program leaves, and the next step reports the
/// program's outcome.
pub proof fn theorem_session_runs_program(
    host: Host,
    env: Env,
    tokens: Seq<TokenView>,
    last: Option<ValueView>,
    depth: nat,
) -> (n: nat)
    requires
        program(host, env, tokens, last, depth) is Some,
    ensures
        ({
            let result = program(host, env, tokens, last, depth)->0;
            let attended = attend_many(
                host,
                SessionView { tokens, vm: semantics::idle(env), last },
                n,
            );
            &&& attended.output == result.output
            &&& attended.session.vm == semantics::idle(result.env)
            &&& attended.session.last == result.outcome
            &&& advance(attended.session).step == StepView::Finished(result.outcome)
        }),
    decreases tokens.len(),
{
    let parsed = node_at(tokens);
    lemma_node_uses_tokens(tokens);
    match parsed.node {
        Some(node) => {
            let first = evaluate(host, env, node, depth)->0;
            let loaded = SessionView { tokens: parsed.rest, vm: semantics::load(env, node), last };
            let n1 = lemma_evaluate(host, loaded.vm, node, depth);
            lemma_attend_busy(host, loaded, n1);
            let kept = if first.outcome is Some {
                first.outcome
            } else {
                last
            };
            let n2 = theorem_session_runs_program(host, first.env, parsed.rest, kept, depth);
            let rest = program(host, first.env, parsed.rest, kept, depth)->0;
            lemma_attend_append(host, loaded, n1, 1 + n2);
            (1 + (n1 + (1 + n2))) as nat
        },
        None => 0,
    }
}

} // verus!
