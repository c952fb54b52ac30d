//! Values and environments.

use vstd::prelude::*;
use vstd::string::StringExecFns;
use crate::parser::{Node, NodeView};

verus! {

/// The native operations of the language. A builtin value is one of these, and
/// two builtin values are the same value exactly when they are the same operation.
#[derive(Clone, Copy, Debug, PartialEq, Eq, Structural)]
pub enum Builtin {
    Define,
    Lambda,
    Add,
    Sub,
    Mul,
    Div,
    Print,
    Do,
}

/// A value of the language.
///
/// A number is an IEEE 754 binary64 value, held as its bit pattern.
#[derive(Debug)]
pub enum Value {
    String(String),
    Number(u64),
    List(Vec<Value>),
    Function { context: Context, args: Vec<String>, body: Node },
    BuiltinFunction(Builtin),
}

/// One name of an environment, with its value.
#[derive(Debug)]
pub struct Binding {
    name: String,
    value: Value,
}

/// An environment: a finite map from names to values.
#[derive(Debug)]
pub struct Context {
    entries: Vec<Binding>,
}

/// What a value is, as a mathematical value.
pub enum ValueView {
    String(Seq<char>),
    Number(u64),
    List(Seq<ValueView>),
    Function { context: Map<Seq<char>, ValueView>, args: Seq<Seq<char>>, body: NodeView },
    BuiltinFunction(Builtin),
}

/// The place of the binding that counts for `name`: the last one of that name,
/// or -1 where there is none.
pub open spec fn binding_of(names: Seq<Seq<char>>, name: Seq<char>) -> int
    decreases names.len(),
{
    if names.len() == 0 {
        -1
    } else if names.last() == name {
        names.len() - 1
    } else {
        binding_of(names.drop_last(), name)
    }
}

/// The binding that counts for a name bears that name, and no later one does.
pub proof fn lemma_binding_of(names: Seq<Seq<char>>, name: Seq<char>)
    ensures
        -1 <= binding_of(names, name) < names.len(),
        binding_of(names, name) >= 0 ==> names[binding_of(names, name)] == name,
        forall|j: int| binding_of(names, name) < j < names.len() ==> names[j] != name,
    decreases names.len(),
{
    if names.len() > 0 && names.last() != name {
        lemma_binding_of(names.drop_last(), name);
        assert forall|j: int| binding_of(names, name) < j < names.len() implies names[j] != name by {
            if j < names.len() - 1 {
                assert(names.drop_last()[j] == names[j]);
            }
        }
    }
}

/// Binding a name that has no binding yet adds one at the end.
pub proof fn lemma_binding_of_push(names: Seq<Seq<char>>, added: Seq<char>, name: Seq<char>)
    ensures
        binding_of(names.push(added), name) == (if name == added {
            names.len() as int
        } else {
            binding_of(names, name)
        }),
{
    assert(names.push(added).drop_last() =~= names);
}

impl Context {
    spec fn names(&self) -> Seq<Seq<char>> {
        Seq::new(self.entries@.len(), |i: int| self.entries@[i].name@)
    }
}

/// The map that an environment stands for: each name with the value of the last
/// binding of that name.
pub closed spec fn context_view(context: Context) -> Map<Seq<char>, ValueView>
    decreases context,
{
    Map::new(
        |name: Seq<char>| binding_of(context.names(), name) >= 0,
        |name: Seq<char>|
            {
                let i = binding_of(context.names(), name);
                if 0 <= i < context.entries@.len() {
                    value_view(context.entries@[i].value)
                } else {
                    ValueView::Number(0)
                }
            },
    )
}

/// The mathematical value that a value stands for.
pub open spec fn value_view(value: Value) -> ValueView
    decreases value,
{
    match value {
        Value::String(text) => ValueView::String(text@),
        Value::Number(bits) => ValueView::Number(bits),
        Value::List(items) => ValueView::List(
            Seq::new(
                items@.len(),
                |i: int|
                    if 0 <= i < items@.len() {
                        value_view(items@[i])
                    } else {
                        ValueView::Number(0)
                    },
            ),
        ),
        Value::Function { context, args, body } => ValueView::Function {
            context: context_view(context),
            args: Seq::new(args@.len(), |i: int| args@[i]@),
            body: body@,
        },
        Value::BuiltinFunction(builtin) => ValueView::BuiltinFunction(builtin),
    }
}

impl View for Context {
    type V = Map<Seq<char>, ValueView>;

    open spec fn view(&self) -> Map<Seq<char>, ValueView> {
        context_view(*self)
    }
}

impl View for Value {
    type V = ValueView;

    open spec fn view(&self) -> ValueView {
        value_view(*self)
    }
}

impl DeepView for Value {
    type V = ValueView;

    open spec fn deep_view(&self) -> ValueView {
        self.view()
    }
}

/// The views of a sequence of values.
pub open spec fn value_views(items: Seq<Value>) -> Seq<ValueView> {
    Seq::new(items.len(), |i: int| items[i]@)
}

/// The views of a sequence of names.
pub open spec fn name_views(names: Seq<String>) -> Seq<Seq<char>> {
    Seq::new(names.len(), |i: int| names[i]@)
}

/// The view of a list value is the list of its items' views.
pub proof fn lemma_list_value(items: Vec<Value>)
    ensures
        Value::List(items)@ == ValueView::List(value_views(items@)),
{
    let v = Value::List(items);
    assert(v@->List_0 =~= value_views(items@));
}

/// The empty list, which stands for "nothing".
pub open spec fn nil() -> ValueView {
    ValueView::List(Seq::empty())
}

/// Whether the bit pattern is a NaN: all exponent bits set and a fraction that is
/// not zero.
pub open spec fn is_nan(bits: u64) -> bool {
    bits % 0x8000_0000_0000_0000 > 0x7ff0_0000_0000_0000
}

/// Whether the bit pattern is one of the two zeros.
pub open spec fn is_zero(bits: u64) -> bool {
    bits % 0x8000_0000_0000_0000 == 0
}

/// Equality of two binary64 numbers by their bit patterns: a NaN equals nothing,
/// the two zeros equal each other, and any other number equals only itself.
pub open spec fn numbers_equal(a: u64, b: u64) -> bool {
    !is_nan(a) && !is_nan(b) && (a == b || (is_zero(a) && is_zero(b)))
}

/// Equality of values.
///
/// Strings, numbers and lists are compared by what they hold, builtins by the
/// operation. A function equals nothing, not even itself.
pub open spec fn values_equal(a: ValueView, b: ValueView) -> bool
    decreases a,
{
    match (a, b) {
        (ValueView::String(x), ValueView::String(y)) => x == y,
        (ValueView::Number(x), ValueView::Number(y)) => numbers_equal(x, y),
        (ValueView::List(x), ValueView::List(y)) => x.len() == y.len() && forall|i: int|
            0 <= i < x.len() ==> values_equal(x[i], #[trigger] y[i]),
        (ValueView::BuiltinFunction(x), ValueView::BuiltinFunction(y)) => x == y,
        _ => false,
    }
}

/// Decides `numbers_equal`.
pub fn same_number(a: u64, b: u64) -> (r: bool)
    ensures
        r == numbers_equal(a, b),
{
    let x: u64 = a % 0x8000_0000_0000_0000;
    let y: u64 = b % 0x8000_0000_0000_0000;
    x <= 0x7ff0_0000_0000_0000 && y <= 0x7ff0_0000_0000_0000 && (a == b || (x == 0 && y == 0))
}

impl Context {
    /// An environment without bindings.
    pub fn new() -> (context: Context)
        ensures
            context@ == Map::<Seq<char>, ValueView>::empty(),
    {
        let context = Context { entries: Vec::new() };
        context
    }

    /// The place of the binding that counts for `name`.
    fn find(&self, name: &String) -> (place: Option<usize>)
        ensures
            place is None ==> binding_of(self.names(), name@) == -1,
            place is Some ==> place->0 == binding_of(self.names(), name@) && place->0
                < self.entries.len(),
    {
        let mut i: usize = self.entries.len();
        assert(self.names().take(i as int) =~= self.names());
        while i > 0
            invariant
                i <= self.entries.len(),
                binding_of(self.names(), name@) == binding_of(self.names().take(i as int), name@),
            decreases i,
        {
            let ghost front = self.names().take(i as int);
            assert(front.drop_last() =~= self.names().take(i - 1));
            if self.entries[i - 1].name == *name {
                return Some(i - 1);
            }
            i -= 1;
        }
        None
    }

    /// The value bound to `name`, if any.
    pub fn get(&self, name: &String) -> (value: Option<&Value>)
        ensures
            value is Some <==> self@.contains_key(name@),
            value is Some ==> value->0@ == self@[name@],
    {
        match self.find(name) {
            Some(i) => Some(&self.entries[i].value),
            None => None,
        }
    }

    /// Binds `name` to `value`, in place of any value that `name` had.
    pub fn insert(&mut self, name: String, value: Value)
        ensures
            final(self)@ == old(self)@.insert(name@, value@),
    {
        let ghost before = *self;
        match self.find(&name) {
            Some(i) => {
                let binding = Binding { name, value };
                self.entries[i] = binding;
                proof {
                    lemma_binding_of(before.names(), name@);
                    assert(self.names() =~= before.names());
                    assert forall|k: Seq<char>| #[trigger] self@.contains_key(k) implies self@[k]
                        == before@.insert(name@, value@)[k] by {
                        lemma_binding_of(before.names(), k);
                    }
                }
            },
            None => {
                self.entries.push(Binding { name, value });
                proof {
                    assert(self.names() =~= before.names().push(name@));
                    assert forall|k: Seq<char>|
                        self@.contains_key(k) == #[trigger] before@.insert(
                            name@,
                            value@,
                        ).contains_key(k) by {
                        lemma_binding_of_push(before.names(), name@, k);
                    }
                    assert forall|k: Seq<char>| #[trigger] self@.contains_key(k) implies self@[k]
                        == before@.insert(name@, value@)[k] by {
                        lemma_binding_of_push(before.names(), name@, k);
                        lemma_binding_of(before.names(), k);
                    }
                }
            },
        }
    }
}

impl Clone for Context {
    fn clone(&self) -> (r: Context)
        ensures
            r@ == self@,
        decreases self,
    {
        let mut entries: Vec<Binding> = Vec::new();
        let mut i: usize = 0;
        while i < self.entries.len()
            invariant
                i <= self.entries.len(),
                entries@.len() == i,
                forall|j: int|
                    0 <= j < i ==> (#[trigger] entries@[j]).name@ == self.entries@[j].name@
                        && entries@[j].value@ == self.entries@[j].value@,
            decreases self.entries.len() - i,
        {
            let name = self.entries[i].name.clone();
            let value = self.entries[i].value.clone();
            entries.push(Binding { name, value });
            i += 1;
        }
        let r = Context { entries };
        proof {
            assert(r.names() =~= self.names());
        }
        r
    }
}

impl Clone for Value {
    fn clone(&self) -> (r: Value)
        ensures
            r@ == self@,
        decreases self,
    {
        match self {
            Value::String(text) => Value::String(text.clone()),
            Value::Number(bits) => Value::Number(*bits),
            Value::List(items) => {
                let mut copies: Vec<Value> = Vec::new();
                let mut i: usize = 0;
                while i < items.len()
                    invariant
                        i <= items.len(),
                        copies@.len() == i,
                        *self == Value::List(*items),
                        forall|j: int| 0 <= j < i ==> copies@[j]@ == items@[j]@,
                    decreases items.len() - i,
                {
                    proof {
                        assert(decreases_to!(self => self->List_0));
                    }
                    let copy = items[i].clone();
                    copies.push(copy);
                    i += 1;
                }
                proof {
                    lemma_list_value(copies);
                    lemma_list_value(*items);
                    assert(value_views(copies@) =~= value_views(items@));
                }
                Value::List(copies)
            },
            Value::Function { context, args, body } => {
                let context_copy = context.clone();
                let args_copy = clone_names(args);
                let body_copy = body.clone();
                Value::Function { context: context_copy, args: args_copy, body: body_copy }
            },
            Value::BuiltinFunction(builtin) => Value::BuiltinFunction(*builtin),
        }
    }
}

/// A copy of a list of names.
pub fn clone_names(names: &Vec<String>) -> (copies: Vec<String>)
    ensures
        name_views(copies@) == name_views(names@),
{
    let mut copies: Vec<String> = Vec::new();
    let mut i: usize = 0;
    while i < names.len()
        invariant
            i <= names.len(),
            copies@.len() == i,
            forall|j: int| 0 <= j < i ==> copies@[j]@ == names@[j]@,
        decreases names.len() - i,
    {
        copies.push(names[i].clone());
        i += 1;
    }
    copies
}

impl Value {
    /// The empty list.
    pub fn nil() -> (value: Value)
        ensures
            value@ == nil(),
    {
        let items: Vec<Value> = Vec::new();
        proof {
            lemma_list_value(items);
            assert(value_views(items@) =~= Seq::<ValueView>::empty());
        }
        Value::List(items)
    }

    /// Decides `values_equal`.
    pub fn same(&self, other: &Value) -> (r: bool)
        ensures
            r == values_equal(self@, other@),
        decreases self,
    {
        match (self, other) {
            (Value::String(a), Value::String(b)) => *a == *b,
            (Value::Number(a), Value::Number(b)) => same_number(*a, *b),
            (Value::List(a), Value::List(b)) => {
                proof {
                    lemma_list_value(*a);
                    lemma_list_value(*b);
                }
                if a.len() != b.len() {
                    return false;
                }
                let mut i: usize = 0;
                while i < a.len()
                    invariant
                        i <= a.len(),
                        a.len() == b.len(),
                        *self == Value::List(*a),
                        self@ == ValueView::List(value_views(a@)),
                        other@ == ValueView::List(value_views(b@)),
                        forall|j: int| 0 <= j < i ==> values_equal(a@[j]@, b@[j]@),
                    decreases a.len() - i,
                {
                    if !a[i].same(&b[i]) {
                        assert(!values_equal(value_views(a@)[i as int], value_views(b@)[i as int]));
                        return false;
                    }
                    i += 1;
                }
                true
            },
            (Value::BuiltinFunction(a), Value::BuiltinFunction(b)) => *a == *b,
            _ => false,
        }
    }
}

impl PartialEq for Value {
    fn eq(&self, other: &Value) -> (r: bool) {
        self.same(other)
    }
}

impl vstd::std_specs::cmp::PartialEqSpecImpl for Value {
    open spec fn obeys_eq_spec() -> bool {
        true
    }

    open spec fn eq_spec(&self, other: &Value) -> bool {
        values_equal(self@, other@)
    }
}

/// A function value equals no value: not another function with the same
/// parameters, body and environment, and not itself.
pub proof fn lemma_function_equals_nothing(function: ValueView, other: ValueView)
    requires
        function is Function,
    ensures
        !values_equal(function, other),
        !values_equal(other, function),
{
}

impl Builtin {
    /// The name under which the operation is registered, as a mathematical value.
    pub open spec fn spec_name(self) -> Seq<char> {
        match self {
            Builtin::Define => "define"@,
            Builtin::Lambda => "lambda"@,
            Builtin::Add => "+"@,
            Builtin::Sub => "-"@,
            Builtin::Mul => "*"@,
            Builtin::Div => "/"@,
            Builtin::Print => "print"@,
            Builtin::Do => "do"@,
        }
    }

    /// The name under which the operation is registered.
    pub fn name(self) -> (name: &'static str)
        ensures
            name@ == self.spec_name(),
    {
        match self {
            Builtin::Define => "define",
            Builtin::Lambda => "lambda",
            Builtin::Add => "+",
            Builtin::Sub => "-",
            Builtin::Mul => "*",
            Builtin::Div => "/",
            Builtin::Print => "print",
            Builtin::Do => "do",
        }
    }
}

/// A piece of displayed text: either text as it stands, or a number that the
/// host still has to write in decimal.
#[derive(Debug)]
pub enum Piece {
    Text(String),
    Number(u64),
}

/// What a piece is, as a mathematical value.
pub enum PieceView {
    Text(Seq<char>),
    Number(u64),
}

impl View for Piece {
    type V = PieceView;

    open spec fn view(&self) -> PieceView {
        match self {
            Piece::Text(text) => PieceView::Text(text@),
            Piece::Number(bits) => PieceView::Number(*bits),
        }
    }
}

/// The views of a sequence of pieces.
pub open spec fn piece_views(pieces: Seq<Piece>) -> Seq<PieceView> {
    Seq::new(pieces.len(), |i: int| pieces[i]@)
}

/// The display form of a value.
///
/// A string is its text and a number is itself. A list is its items, each in its
/// display form, with one space between two items. A function is `<Function>`,
/// a builtin is `<BuiltinFunction@` with its name and `>`.
pub open spec fn display(value: ValueView) -> Seq<PieceView>
    decreases value, 0nat,
{
    match value {
        ValueView::String(text) => seq![PieceView::Text(text)],
        ValueView::Number(bits) => seq![PieceView::Number(bits)],
        ValueView::List(items) => display_first(items, items.len()),
        ValueView::Function { .. } => seq![PieceView::Text("<Function>"@)],
        ValueView::BuiltinFunction(builtin) => seq![
            PieceView::Text("<BuiltinFunction@"@ + builtin.spec_name() + ">"@),
        ],
    }
}

/// The display forms of the first `n` of `values`, with one space between two
/// values.
pub open spec fn display_first(values: Seq<ValueView>, n: nat) -> Seq<PieceView>
    decreases values, n,
{
    if n == 0 || n > values.len() {
        Seq::empty()
    } else if n == 1 {
        display(values[0])
    } else {
        display_first(values, (n - 1) as nat) + seq![PieceView::Text(" "@)] + display(
            values[n - 1],
        )
    }
}

/// The display forms of all of `values`, with one space between two values.
pub open spec fn display_all(values: Seq<ValueView>) -> Seq<PieceView> {
    display_first(values, values.len())
}

impl Value {
    /// Appends the display form of the value to `out`.
    pub fn display_into(&self, out: &mut Vec<Piece>)
        ensures
            piece_views(final(out)@) == piece_views(old(out)@) + display(self@),
        decreases self, 0nat,
    {
        match self {
            Value::String(text) => {
                out.push(Piece::Text(text.clone()));
            },
            Value::Number(bits) => {
                out.push(Piece::Number(*bits));
            },
            Value::List(items) => {
                proof {
                    lemma_list_value(*items);
                }
                display_each_into(items, out);
            },
            Value::Function { .. } => {
                out.push(Piece::Text(String::from_str("<Function>")));
            },
            Value::BuiltinFunction(builtin) => {
                let mut text = String::from_str("<BuiltinFunction@");
                text.append(builtin.name());
                text.append(">");
                out.push(Piece::Text(text));
            },
        }
    }

    /// The display form of the value.
    pub fn display(&self) -> (pieces: Vec<Piece>)
        ensures
            piece_views(pieces@) == display(self@),
    {
        let mut pieces: Vec<Piece> = Vec::new();
        self.display_into(&mut pieces);
        pieces
    }
}

/// Appends the display forms of `values`, with one space between two values.
pub fn display_each_into(values: &Vec<Value>, out: &mut Vec<Piece>)
    ensures
        piece_views(final(out)@) == piece_views(old(out)@) + display_all(value_views(values@)),
    decreases values, 1nat,
{
    let ghost before = piece_views(out@);
    let ghost views = value_views(values@);
    let mut i: usize = 0;
    while i < values.len()
        invariant
            i <= values.len(),
            views == value_views(values@),
            piece_views(out@) == before + display_first(views, i as nat),
        decreases values.len() - i,
    {
        let ghost so_far = piece_views(out@);
        if i > 0 {
            out.push(Piece::Text(String::from_str(" ")));
        }
        let ghost spaced = piece_views(out@);
        proof {
            if i > 0 {
                assert(spaced =~= so_far + seq![PieceView::Text(" "@)]);
            }
        }
        values[i].display_into(out);
        i += 1;
    }
}

/// The display forms of `values`, with one space between two values.
pub fn display_each(values: &Vec<Value>) -> (pieces: Vec<Piece>)
    ensures
        piece_views(pieces@) == display_all(value_views(values@)),
{
    let mut pieces: Vec<Piece> = Vec::new();
    display_each_into(values, &mut pieces);
    pieces
}

} // verus!
