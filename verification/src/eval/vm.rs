//! The machine that evaluates.

use vstd::prelude::*;
use crate::eval::helper::{eval_args, next_arg};
use crate::eval::lib::context::defined;
use crate::eval::lib::{call_builtin, register, with_builtins};
use crate::eval::semantics;
use crate::eval::semantics::{ControlView, FrameView, Operator, PurposeView, StepView, VMView};
use crate::eval::value::{name_views, piece_views, value_views, Context, Piece, Value};
use crate::lexer::Lexer;
use crate::numeral::Numeral;
use crate::parser::{lemma_list_view, node_at, node_views, tokens, Node, Parser};

verus! {

/// What a run of arguments is evaluated for.
#[derive(Debug)]
pub enum Purpose {
    Call { context: Context, params: Vec<String>, body: Node },
    Arith(Operator),
    Print,
    Do,
}

impl View for Purpose {
    type V = PurposeView;

    open spec fn view(&self) -> PurposeView {
        match self {
            Purpose::Call { context, params, body } => PurposeView::Call {
                context: context@,
                params: name_views(params@),
                body: body@,
            },
            Purpose::Arith(operator) => PurposeView::Arith(*operator),
            Purpose::Print => PurposeView::Print,
            Purpose::Do => PurposeView::Do,
        }
    }
}

/// Work that waits for a value.
#[derive(Debug)]
pub enum Frame {
    Callee { args: Vec<Node> },
    Args { purpose: Purpose, nodes: Vec<Node>, values: Vec<Value> },
    Bind { name: String },
    Leave,
}

impl View for Frame {
    type V = FrameView;

    open spec fn view(&self) -> FrameView {
        match self {
            Frame::Callee { args } => FrameView::Callee { args: node_views(args@) },
            Frame::Args { purpose, nodes, values } => FrameView::Args {
                purpose: purpose@,
                nodes: node_views(nodes@),
                values: value_views(values@),
            },
            Frame::Bind { name } => FrameView::Bind { name: name@ },
            Frame::Leave => FrameView::Leave,
        }
    }
}

/// The work at hand.
#[derive(Debug)]
pub enum Control {
    Idle,
    Eval(Node),
    Give(Option<Value>),
    Round(Numeral),
    Compute(Operator, u64, u64),
}

impl View for Control {
    type V = ControlView;

    open spec fn view(&self) -> ControlView {
        match self {
            Control::Idle => ControlView::Idle,
            Control::Eval(node) => ControlView::Eval(node@),
            Control::Give(outcome) => ControlView::Give(outcome.deep_view()),
            Control::Round(numeral) => ControlView::Round(numeral@),
            Control::Compute(operator, a, b) => ControlView::Compute(*operator, *a, *b),
        }
    }
}

/// What the machine tells its host after a step.
#[derive(Debug)]
pub enum Step {
    /// There was nothing to do.
    Idle,
    /// The machine moved; there is more to do.
    Continue,
    /// The evaluation is over, with this outcome.
    Finished(Option<Value>),
    /// The host is asked for the binary64 number nearest to the numeral, to be
    /// handed to `resume` as its bit pattern.
    Round(Numeral),
    /// The host is asked for the result of the operation on the two numbers, to
    /// be handed to `resume` as its bit pattern.
    Compute(Operator, u64, u64),
    /// The host is asked to write the pieces one after the other, with nothing
    /// between them and nothing behind them.
    Print(Vec<Piece>),
}

impl View for Step {
    type V = StepView;

    open spec fn view(&self) -> StepView {
        match self {
            Step::Idle => StepView::Idle,
            Step::Continue => StepView::Continue,
            Step::Finished(outcome) => StepView::Finished(outcome.deep_view()),
            Step::Round(numeral) => StepView::Round(numeral@),
            Step::Compute(operator, a, b) => StepView::Compute(*operator, *a, *b),
            Step::Print(pieces) => StepView::Print(piece_views(pieces@)),
        }
    }
}

/// The views of a sequence of environments.
pub open spec fn context_views(scopes: Seq<Context>) -> Seq<semantics::Env> {
    Seq::new(scopes.len(), |i: int| scopes[i]@)
}

/// The views of a sequence of frames.
pub open spec fn frame_views(frames: Seq<Frame>) -> Seq<FrameView> {
    Seq::new(frames.len(), |i: int| frames[i]@)
}

/// The evaluator.
pub struct VM {
    pub(crate) root: Context,
    pub(crate) scopes: Vec<Context>,
    pub(crate) frames: Vec<Frame>,
    pub(crate) control: Control,
}

impl View for VM {
    type V = VMView;

    open(crate) spec fn view(&self) -> VMView {
        VMView {
            root: self.root@,
            scopes: context_views(self.scopes@),
            frames: frame_views(self.frames@),
            control: self.control@,
        }
    }
}

impl VM {
    /// A machine at rest, with an empty root environment.
    pub fn new() -> (vm: VM)
        ensures
            vm@ == semantics::idle(Map::empty()),
    {
        let vm = VM {
            root: Context::new(),
            scopes: Vec::new(),
            frames: Vec::new(),
            control: Control::Idle,
        };
        assert(vm@.scopes =~= Seq::empty());
        assert(vm@.frames =~= Seq::empty());
        vm
    }

    /// A machine about to evaluate `node` in the root environment `ctx`.
    pub fn eval_in_context(ctx: Context, node: &Node) -> (vm: VM)
        ensures
            vm@ == semantics::load(ctx@, node@),
    {
        let vm = VM {
            root: ctx,
            scopes: Vec::new(),
            frames: Vec::new(),
            control: Control::Eval(node.clone()),
        };
        assert(vm@.scopes =~= Seq::empty());
        assert(vm@.frames =~= Seq::empty());
        vm
    }

    /// Sets the machine to evaluate `node` in its root environment. What it was
    /// doing before is dropped.
    pub fn eval(&mut self, node: &Node)
        ensures
            final(self)@ == semantics::load(old(self)@.root, node@),
    {
        self.scopes = Vec::new();
        self.frames = Vec::new();
        self.control = Control::Eval(node.clone());
        assert(self@.scopes =~= Seq::empty());
        assert(self@.frames =~= Seq::empty());
    }

    /// Sets the machine to evaluate the first node of `expr`, and says whether
    /// there is one. Without one the machine stays as it is.
    pub fn eval_expr(&mut self, expr: &str) -> (loaded: bool)
        ensures
            loaded == node_at(tokens(expr@)).node is Some,
            loaded ==> final(self)@ == semantics::load(
                old(self)@.root,
                node_at(tokens(expr@)).node->0,
            ),
            !loaded ==> final(self)@ == old(self)@,
    {
        let mut parser = Parser::new(Lexer::new(expr));
        match parser.parse() {
            Some(node) => {
                self.eval(&node);
                true
            },
            None => false,
        }
    }

    /// Binds each builtin to its name in the root environment.
    pub fn load_stdlib(&mut self)
        ensures
            final(self)@ == (VMView {
                root: with_builtins(old(self)@.root),
                ..old(self)@
            }),
    {
        register(&mut self.root);
    }

    /// The root environment.
    pub fn root(&self) -> (root: &Context)
        ensures
            root@ == self@.root,
    {
        &self.root
    }

    /// The environment in which names are looked up and defined.
    pub fn current(&self) -> (context: &Context)
        ensures
            context@ == semantics::current(self@),
    {
        if self.scopes.len() > 0 {
            &self.scopes[self.scopes.len() - 1]
        } else {
            &self.root
        }
    }

    /// Binds `name` to `value` in the current environment.
    pub(crate) fn bind(&mut self, name: String, value: Value)
        ensures
            final(self)@ == semantics::bind(old(self)@, name@, value@),
    {
        let n = self.scopes.len();
        if n > 0 {
            let ghost before = self.scopes@;
            self.scopes[n - 1].insert(name, value);
            assert(context_views(self.scopes@) =~= context_views(before).update(
                n - 1,
                before[n - 1]@.insert(name@, value@),
            ));
        } else {
            self.root.insert(name, value);
        }
    }

    /// Adds a frame.
    pub(crate) fn push(&mut self, frame: Frame)
        ensures
            final(self)@ == semantics::push(old(self)@, frame@),
    {
        self.frames.push(frame);
        assert(frame_views(self.frames@) =~= frame_views(old(self).frames@).push(frame@));
    }

    /// Adds an environment for a call.
    pub(crate) fn enter(&mut self, scope: Context)
        ensures
            final(self)@ == (VMView { scopes: old(self)@.scopes.push(scope@), ..old(self)@ }),
    {
        self.scopes.push(scope);
        assert(context_views(self.scopes@) =~= context_views(old(self).scopes@).push(scope@));
    }

    /// Goes on to evaluate `node`.
    pub(crate) fn go(&mut self, node: Node) -> (step: Step)
        ensures
            final(self)@ == semantics::go(old(self)@, node@).vm,
            step@ == semantics::go(old(self)@, node@).step,
    {
        self.control = Control::Eval(node);
        Step::Continue
    }

    /// Takes `outcome` as the outcome at hand.
    pub(crate) fn give(&mut self, outcome: Option<Value>) -> (step: Step)
        ensures
            final(self)@ == semantics::give(old(self)@, outcome.deep_view()).vm,
            step@ == semantics::give(old(self)@, outcome.deep_view()).step,
    {
        self.control = Control::Give(outcome);
        Step::Continue
    }

    /// One step of the machine.
    pub fn step(&mut self) -> (step: Step)
        ensures
            final(self)@ == semantics::step(old(self)@).vm,
            step@ == semantics::step(old(self)@).step,
    {
        let mut control = Control::Idle;
        core::mem::swap(&mut self.control, &mut control);
        match control {
            Control::Idle => Step::Idle,
            Control::Eval(node) => eval_in_context(self, node),
            Control::Give(outcome) => resolve(self, outcome),
            Control::Round(numeral) => {
                let step = Step::Round(numeral.clone());
                self.control = Control::Round(numeral);
                step
            },
            Control::Compute(operator, a, b) => {
                self.control = Control::Compute(operator, a, b);
                Step::Compute(operator, a, b)
            },
        }
    }

    /// Whether the machine is at rest.
    pub fn idle(&self) -> (idle: bool)
        ensures
            idle == self@.control is Idle,
    {
        match &self.control {
            Control::Idle => true,
            _ => false,
        }
    }

    /// Whether the machine waits for a number from the host.
    pub fn waiting(&self) -> (waiting: bool)
        ensures
            waiting == semantics::waiting(self@),
    {
        match &self.control {
            Control::Round(_) => true,
            Control::Compute(_, _, _) => true,
            _ => false,
        }
    }

    /// Takes the host's answer, and says whether the machine had asked.
    pub fn resume(&mut self, bits: u64) -> (asked: bool)
        ensures
            asked == semantics::waiting(old(self)@),
            final(self)@ == semantics::resume(old(self)@, bits),
    {
        if self.waiting() {
            self.control = Control::Give(Some(Value::Number(bits)));
            true
        } else {
            false
        }
    }
}

/// Evaluates `node`: see `semantics::eval_in_context`.
///
/// The machine's control is taken to be free: it is set anew.
pub fn eval_in_context(vm: &mut VM, node: Node) -> (step: Step)
    ensures
        final(vm)@ == semantics::eval_in_context(old(vm)@, node@).vm,
        step@ == semantics::eval_in_context(old(vm)@, node@).step,
{
    match node {
        Node::Atom(name) => {
            let value = match vm.current().get(&name) {
                Some(value) => Some(value.clone()),
                None => None,
            };
            vm.give(value)
        },
        Node::String(text) => vm.give(Some(Value::String(text))),
        Node::Number(numeral) => {
            let step = Step::Round(numeral.clone());
            vm.control = Control::Round(numeral);
            step
        },
        Node::List(items) => {
            proof {
                lemma_list_view(items);
            }
            eval_list(vm, items)
        },
    }
}

/// Evaluates a list: see `semantics::eval_list`.
pub fn eval_list(vm: &mut VM, items: Vec<Node>) -> (step: Step)
    ensures
        final(vm)@ == semantics::eval_list(old(vm)@, node_views(items@)).vm,
        step@ == semantics::eval_list(old(vm)@, node_views(items@)).step,
{
    let mut items = items;
    if items.len() == 0 {
        vm.give(Some(Value::nil()))
    } else {
        let ghost all = node_views(items@);
        let head = items.remove(0);
        assert(node_views(items@) =~= all.skip(1));
        vm.push(Frame::Callee { args: items });
        vm.go(head)
    }
}

/// Calls `callee` with the arguments `args`: see `semantics::eval_call`.
pub fn eval_call(vm: &mut VM, callee: Option<Value>, args: Vec<Node>) -> (step: Step)
    ensures
        final(vm)@ == semantics::eval_call(old(vm)@, callee.deep_view(), node_views(args@)).vm,
        step@ == semantics::eval_call(old(vm)@, callee.deep_view(), node_views(args@)).step,
{
    match callee {
        Some(Value::Function { context, args: params, body }) => {
            eval_args(vm, Purpose::Call { context, params, body }, args)
        },
        Some(Value::BuiltinFunction(builtin)) => call_builtin(vm, builtin, args),
        _ => vm.give(None),
    }
}

/// Ends the body of a function: see `semantics::leave`.
pub fn leave(vm: &mut VM, outcome: Option<Value>) -> (step: Step)
    ensures
        final(vm)@ == semantics::leave(old(vm)@, outcome.deep_view()).vm,
        step@ == semantics::leave(old(vm)@, outcome.deep_view()).step,
{
    let ghost before = vm.scopes@;
    if vm.scopes.len() > 0 {
        vm.scopes.pop();
        assert(context_views(vm.scopes@) =~= context_views(before).drop_last());
    }
    vm.give(outcome)
}

/// Hands an outcome to the work that waited for it: see `semantics::resolve`.
pub fn resolve(vm: &mut VM, outcome: Option<Value>) -> (step: Step)
    ensures
        final(vm)@ == semantics::resolve(old(vm)@, outcome.deep_view()).vm,
        step@ == semantics::resolve(old(vm)@, outcome.deep_view()).step,
{
    let ghost before = vm.frames@;
    match vm.frames.pop() {
        None => {
            vm.scopes = Vec::new();
            vm.control = Control::Idle;
            assert(vm@.scopes =~= Seq::empty());
            Step::Finished(outcome)
        },
        Some(frame) => {
            assert(frame_views(vm.frames@) =~= frame_views(before).drop_last());
            match frame {
                Frame::Callee { args } => eval_call(vm, outcome, args),
                Frame::Args { purpose, nodes, values } => next_arg(
                    vm,
                    purpose,
                    nodes,
                    values,
                    outcome,
                ),
                Frame::Bind { name } => defined(vm, name, outcome),
                Frame::Leave => leave(vm, outcome),
            }
        },
    }
}

} // verus!
