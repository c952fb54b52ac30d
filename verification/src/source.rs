//! Writing a syntax tree as program text, and reading it back.
//!
//! `source` is the text of a tree. `theorem_round_trip` states that scanning and
//! parsing that text gives the tree again, for every tree that can be written at
//! all (`writable`).

use vstd::prelude::*;
use vstd::string::StringExecFns;
use crate::lexer::{lemma_scan_uses_input, scan, unescaped, unescaped_text, TokenView};
use crate::numeral::is_numeral;
use crate::parser::{
    items_at, lemma_list_view, list_at, node_at, node_views, tokens, Items, Node, NodeView,
    Parsed,
};
use crate::text::{is_digit, is_separator, lemma_run_bounds, lemma_run_unique, run, CharClass};

verus! {

/// The text of a tree.
///
/// A name and a numeral are written as they are, a string between two quotes, and
/// a list between parentheses, with one space between two items.
pub open spec fn source(node: NodeView) -> Seq<char>
    decreases node, 0nat,
{
    match node {
        NodeView::Atom(name) => name,
        NodeView::String(text) => seq!['"'] + text + seq!['"'],
        NodeView::Number(numeral) => numeral,
        NodeView::List(items) => seq!['('] + sources(items, 0) + seq![')'],
    }
}

/// The texts of the items from the place `from` on, with one space between two
/// items.
pub open spec fn sources(items: Seq<NodeView>, from: nat) -> Seq<char>
    decreases items, items.len() - from,
{
    if from >= items.len() {
        Seq::empty()
    } else if from + 1 == items.len() {
        source(items[from as int])
    } else {
        source(items[from as int]) + seq![' '] + sources(items, from + 1)
    }
}

/// Whether a tree can be written so that it is read back as it was.
///
/// - A name is not empty, holds no separator and no `)`, and does not begin with
///   a digit, a quote or a `(`.
/// - A string holds no quote, and no backslash that would be read as an escape.
/// - A number is a numeral.
/// - A list holds such trees only.
pub open spec fn writable(node: NodeView) -> bool
    decreases node,
{
    match node {
        NodeView::Atom(name) => {
            &&& name.len() > 0
            &&& forall|i: int| 0 <= i < name.len() ==> CharClass::Ident.holds(#[trigger] name[i])
            &&& !is_digit(name[0])
            &&& name[0] != '"'
            &&& name[0] != '('
        },
        NodeView::String(text) => {
            &&& forall|i: int| 0 <= i < text.len() ==> #[trigger] text[i] != '"'
            &&& unescaped_text(text) == text
        },
        NodeView::Number(numeral) => is_numeral(numeral),
        NodeView::List(items) => forall|i: int|
            0 <= i < items.len() ==> writable(#[trigger] items[i]),
    }
}

impl Node {
    /// Appends the text of the tree to `out`.
    pub fn write(&self, out: &mut String)
        ensures
            final(out)@ == old(out)@ + source(self@),
        decreases self,
    {
        let ghost before = out@;
        match self {
            Node::Atom(name) => {
                out.append(name.as_str());
            },
            Node::String(text) => {
                out.push('"');
                out.append(text.as_str());
                out.push('"');
            },
            Node::Number(numeral) => {
                out.append(numeral.as_str());
            },
            Node::List(items) => {
                proof {
                    lemma_list_view(*items);
                }
                out.push('(');
                let ghost views = node_views(items@);
                let mut i: usize = 0;
                while i < items.len()
                    invariant
                        i <= items.len(),
                        *self == Node::List(*items),
                        views == node_views(items@),
                        out@ + sources(views, i as nat) == before + seq!['('] + sources(views, 0),
                    decreases items.len() - i,
                {
                    proof {
                        assert(decreases_to!(self => self->List_0));
                    }
                    items[i].write(out);
                    if i + 1 < items.len() {
                        out.push(' ');
                    } else {
                    }
                    i += 1;
                }
                out.push(')');
            },
        }
    }

    /// The text of the tree.
    pub fn to_source(&self) -> (text: String)
        ensures
            text@ == source(self@),
    {
        let mut text = String::new();
        self.write(&mut text);
        text
    }
}

/// The tokens of a tree's text.
pub open spec fn node_tokens(node: NodeView) -> Seq<TokenView>
    decreases node, 0nat,
{
    match node {
        NodeView::Atom(name) => seq![TokenView::Ident(name)],
        NodeView::String(text) => seq![TokenView::String(text)],
        NodeView::Number(numeral) => seq![TokenView::Number(numeral)],
        NodeView::List(items) => seq![TokenView::LeftParen] + items_tokens(items, 0)
            + seq![TokenView::RightParen],
    }
}

/// The tokens of the texts of the items from the place `from` on.
pub open spec fn items_tokens(items: Seq<NodeView>, from: nat) -> Seq<TokenView>
    decreases items, items.len() - from,
{
    if from >= items.len() {
        Seq::empty()
    } else {
        node_tokens(items[from as int]) + items_tokens(items, from + 1)
    }
}

/// Whether text behind a name or a numeral ends it: the text is empty, or begins
/// with a separator or a `)`.
pub open spec fn delimited(rest: Seq<char>) -> bool {
    rest.len() == 0 || is_separator(rest[0]) || rest[0] == ')'
}

/// Parsing the tokens of a tree gives the tree, and leaves what stood behind them.
pub proof fn lemma_parse_tokens(node: NodeView, rest: Seq<TokenView>)
    ensures
        node_at(node_tokens(node) + rest) == (Parsed { node: Some(node), rest }),
    decreases node, 0nat,
{
    let all = node_tokens(node) + rest;
    match node {
        NodeView::List(items) => {
            let closed = seq![TokenView::RightParen] + rest;
            assert(all.skip(1) =~= items_tokens(items, 0) + closed);
            lemma_parse_items(items, 0, closed);
            assert(items.skip(0) =~= items);
            assert(closed.skip(1) =~= rest);
        },
        _ => {
            assert(all.skip(1) =~= rest);
        },
    }
}

/// Parsing the tokens of some items that stand before a `)` gives the items, and
/// stops at the `)`.
proof fn lemma_parse_items(items: Seq<NodeView>, from: nat, rest: Seq<TokenView>)
    requires
        from <= items.len(),
        rest.len() > 0,
        rest[0] == TokenView::RightParen,
    ensures
        items_at(items_tokens(items, from) + rest) == (Items { nodes: items.skip(from as int), rest }),
    decreases items, items.len() - from,
{
    let all = items_tokens(items, from) + rest;
    reveal_with_fuel(items_at, 2);
    if from >= items.len() {
        assert(items.skip(from as int) =~= Seq::<NodeView>::empty());
    } else {
        let first = items[from as int];
        let later = items_tokens(items, from + 1) + rest;
        assert(all =~= node_tokens(first) + later);
        lemma_parse_tokens(first, later);
        lemma_parse_items(items, from + 1, rest);
        assert(seq![first] + items.skip(from as int + 1) =~= items.skip(from as int));
    }
}

/// Where a token stands at the front of the input, it is the first of the
/// tokens, and the others are those of the input behind it.
proof fn lemma_tokens_first(input: Seq<char>)
    ensures
        scan(input).token is Some ==> tokens(input) == seq![scan(input).token->0] + tokens(
            scan(input).rest,
        ),
        scan(input).token is None ==> tokens(input) == Seq::<TokenView>::empty(),
{
    lemma_scan_uses_input(input);
}

/// A separator before the input changes no token.
proof fn lemma_tokens_after_separator(c: char, input: Seq<char>)
    requires
        is_separator(c),
    ensures
        tokens(seq![c] + input) == tokens(input),
{
    let spaced = seq![c] + input;
    assert(spaced.skip(1) =~= input);
    let r = run(input, CharClass::Separator);
    lemma_run_bounds(input, CharClass::Separator);
    assert(spaced.skip(1 + r as int) =~= input.skip(r as int));
    lemma_tokens_first(input);
}

/// A run covers a text of its class that is followed by nothing of the class.
proof fn lemma_run_covers(text: Seq<char>, rest: Seq<char>, class: CharClass)
    requires
        forall|i: int| 0 <= i < text.len() ==> class.holds(#[trigger] text[i]),
        rest.len() == 0 || !class.holds(rest[0]),
    ensures
        run(text + rest, class) == text.len(),
{
    let all = text + rest;
    lemma_run_unique(all, class, text.len() as int);
}

/// A numeral begins with a digit and holds digits and points only.
proof fn lemma_numeral_chars(text: Seq<char>)
    requires
        is_numeral(text),
    ensures
        text.len() > 0,
        is_digit(text[0]),
        forall|i: int| 0 <= i < text.len() ==> CharClass::Numeral.holds(#[trigger] text[i]),
{
    let whole = run(text, CharClass::Digit) as int;
    lemma_run_bounds(text, CharClass::Digit);
    if whole < text.len() {
        let fraction = text.skip(whole + 1);
        lemma_run_bounds(fraction, CharClass::Digit);
        assert forall|i: int| 0 <= i < text.len() implies CharClass::Numeral.holds(
            #[trigger] text[i],
        ) by {
            if i > whole {
                assert(text[i] == fraction[i - whole - 1]);
            }
        }
    }
}

/// Scanning the text of a tree gives the tokens of the tree, and then those of
/// what stands behind it.
pub proof fn lemma_scan_source(node: NodeView, rest: Seq<char>)
    requires
        writable(node),
        delimited(rest),
    ensures
        tokens(source(node) + rest) == node_tokens(node) + tokens(rest),
    decreases node, 0nat,
{
    let input = source(node) + rest;
    match node {
        NodeView::Atom(name) => {
            lemma_run_covers(name, rest, CharClass::Ident);
            assert(input.skip(0) =~= input);
            assert(input.take(name.len() as int) =~= name);
            assert(input.skip(name.len() as int) =~= rest);
        },
        NodeView::Number(numeral) => {
            lemma_numeral_chars(numeral);
            lemma_run_covers(numeral, rest, CharClass::Numeral);
            assert(input.skip(0) =~= input);
            assert(input.take(numeral.len() as int) =~= numeral);
            assert(input.skip(numeral.len() as int) =~= rest);
        },
        NodeView::String(text) => {
            let closing = seq!['"'] + rest;
            lemma_run_covers(text, closing, CharClass::Quoted);
            assert(input.skip(0) =~= input);
            let body = input.skip(1);
            assert(body =~= text + closing);
            assert(body.take(text.len() as int) =~= text);
            assert(body.skip(text.len() as int + 1) =~= rest);
        },
        NodeView::List(items) => {
            assert(input.skip(0) =~= input);
            assert(input.skip(1) =~= sources(items, 0) + (seq![')'] + rest));
            lemma_scan_sources(items, 0, rest);
        },
    }
}

/// Scanning the texts of some items and the `)` behind them gives the tokens of
/// the items, then the `)`, and then the tokens of what stands behind it.
proof fn lemma_scan_sources(items: Seq<NodeView>, from: nat, rest: Seq<char>)
    requires
        from <= items.len(),
        forall|i: int| 0 <= i < items.len() ==> writable(#[trigger] items[i]),
    ensures
        tokens(sources(items, from) + (seq![')'] + rest)) == items_tokens(items, from) + seq![
            TokenView::RightParen,
        ] + tokens(rest),
    decreases items, items.len() - from,
{
    let closing = seq![')'] + rest;
    let input = sources(items, from) + closing;
    if from >= items.len() {
        assert(closing.skip(0) =~= closing);
        assert(closing.skip(1) =~= rest);
    } else {
        let first = items[from as int];
        if from + 1 == items.len() {
            lemma_scan_source(first, closing);
            lemma_scan_sources(items, from + 1, rest);
        } else {
            let later = sources(items, from + 1) + closing;
            let spaced = seq![' '] + later;
            assert(input =~= source(first) + spaced);
            lemma_scan_source(first, spaced);
            lemma_tokens_after_separator(' ', later);
            lemma_scan_sources(items, from + 1, rest);
        }
    }
}

/// Written and read back, a tree is what it was.
///
/// For every tree that can be written, scanning its text and parsing the tokens
/// gives that tree, and uses all the tokens.
pub proof fn theorem_round_trip(node: NodeView)
    requires
        writable(node),
    ensures
        node_at(tokens(source(node))) == (Parsed { node: Some(node), rest: Seq::empty() }),
{
    assert(source(node) + Seq::<char>::empty() =~= source(node));
    lemma_scan_source(node, Seq::empty());
    lemma_parse_tokens(node, Seq::empty());
}

/// Whether a token is one that `writable` allows in a tree.
pub open spec fn token_writable(token: TokenView) -> bool {
    match token {
        TokenView::Ident(name) => writable(NodeView::Atom(name)),
        TokenView::String(text) => writable(NodeView::String(text)),
        TokenView::Number(numeral) => writable(NodeView::Number(numeral)),
        _ => true,
    }
}

/// The text of a string literal holds no quote if the raw characters hold none,
/// and reading it as raw characters once more changes nothing.
proof fn lemma_unescaped_text_is_stable(raw: Seq<char>)
    requires
        forall|i: int| 0 <= i < raw.len() ==> #[trigger] raw[i] != '"',
    ensures
        forall|i: int|
            0 <= i < unescaped_text(raw).len() ==> #[trigger] unescaped_text(raw)[i] != '"',
        unescaped_text(unescaped_text(raw)) == unescaped_text(raw),
    decreases raw.len(),
{
    let text = unescaped_text(raw);
    if raw.len() == 0 {
    } else if raw[0] != '\\' {
        let rest = raw.skip(1);
        lemma_unescaped_text_is_stable(rest);
        assert(text.skip(1) =~= unescaped_text(rest));
    } else if raw.len() == 1 {
    } else {
        let rest = raw.skip(2);
        lemma_unescaped_text_is_stable(rest);
        match unescaped(raw[1]) {
            Some(c) => {
                assert(text.skip(1) =~= unescaped_text(rest));
            },
            None => {
                assert(text.skip(2) =~= unescaped_text(rest));
            },
        }
    }
}

/// Every token that scanning finds is one that can be written.
proof fn lemma_scanned_is_writable(input: Seq<char>)
    ensures
        scan(input).token is Some ==> token_writable(scan(input).token->0),
{
    lemma_run_bounds(input, CharClass::Separator);
    let s = input.skip(run(input, CharClass::Separator) as int);
    if s.len() > 0 {
        if s[0] == '"' {
            let body = s.skip(1);
            let n = run(body, CharClass::Quoted) as int;
            lemma_run_bounds(body, CharClass::Quoted);
            let raw = body.take(n);
            lemma_unescaped_text_is_stable(raw);
        } else if !(s[0] == '(' || s[0] == ')' || is_digit(s[0])) {
            let n = run(s, CharClass::Ident) as int;
            lemma_run_bounds(s, CharClass::Ident);
        }
    }
}

/// Every token of an input is one that can be written.
proof fn lemma_tokens_are_writable(input: Seq<char>)
    ensures
        forall|i: int| 0 <= i < tokens(input).len() ==> token_writable(#[trigger] tokens(input)[i]),
    decreases input.len(),
{
    let first = scan(input);
    lemma_scanned_is_writable(input);
    if first.token is Some && first.rest.len() < input.len() {
        lemma_tokens_are_writable(first.rest);
        assert forall|i: int| 0 <= i < tokens(input).len() implies token_writable(
            #[trigger] tokens(input)[i],
        ) by {
            if i > 0 {
                assert(tokens(input)[i] == tokens(first.rest)[i - 1]);
            }
        }
    }
}

/// Parsing tokens that can be written gives trees that can be written, and
/// leaves tokens that can be written.
proof fn lemma_parsed_tokens_are_writable(given: Seq<TokenView>)
    requires
        forall|i: int| 0 <= i < given.len() ==> token_writable(#[trigger] given[i]),
    ensures
        node_at(given).node is Some ==> writable(node_at(given).node->0),
        list_at(given).node is Some ==> writable(list_at(given).node->0),
        forall|i: int|
            0 <= i < items_at(given).nodes.len() ==> writable(#[trigger] items_at(given).nodes[i]),
        forall|i: int|
            0 <= i < items_at(given).rest.len() ==> token_writable(
                #[trigger] items_at(given).rest[i],
            ),
    decreases given.len(),
{
    if given.len() > 0 {
        let later = given.skip(1);
        lemma_parsed_tokens_are_writable(later);
        let listed = list_at(given);
        if listed.node is Some {
            assert(listed.node->0 == NodeView::List(items_at(later).nodes));
        }
        let first = node_at(given);
        if first.node is Some && first.rest.len() < given.len() {
            lemma_parsed_tokens_are_writable(first.rest);
            assert(items_at(given).nodes == seq![first.node->0] + items_at(first.rest).nodes);
        }
    }
}

/// What parsing leaves is the end of what it was given.
proof fn lemma_rest_is_suffix(given: Seq<TokenView>)
    ensures
        node_at(given).rest.len() <= given.len(),
        node_at(given).rest == given.skip(given.len() - node_at(given).rest.len()),
        list_at(given).rest.len() <= given.len(),
        list_at(given).rest == given.skip(given.len() - list_at(given).rest.len()),
        items_at(given).rest.len() <= given.len(),
        items_at(given).rest == given.skip(given.len() - items_at(given).rest.len()),
    decreases given.len(),
{
    if given.len() > 0 {
        let later = given.skip(1);
        lemma_rest_is_suffix(later);
        let first = node_at(given);
        if first.node is Some && first.rest.len() < given.len() {
            lemma_rest_is_suffix(first.rest);
        }
    }
}

/// A tree that is read from any text can be written.
pub proof fn lemma_parsed_is_writable(input: Seq<char>)
    ensures
        node_at(tokens(input)).node is Some ==> writable(node_at(tokens(input)).node->0),
{
    lemma_tokens_are_writable(input);
    lemma_parsed_tokens_are_writable(tokens(input));
}

/// The trees that are read back as they were written are exactly those that
/// `writable` describes.
pub proof fn theorem_round_trip_exactly(node: NodeView)
    ensures
        writable(node) <==> node_at(tokens(source(node))).node == Some(node),
{
    if writable(node) {
        theorem_round_trip(node);
    }
    lemma_parsed_is_writable(source(node));
}

} // verus!
