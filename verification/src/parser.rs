//! The parser: from tokens to syntax trees.
//!
//! `node_at` says, for any sequence of tokens, which node stands at its front and
//! which tokens are left behind it. `Parser` is the executable parser over a
//! `Lexer`; its view is the sequence of tokens that it has not used yet.

use vstd::prelude::*;
use crate::lexer::{lemma_scan_uses_input, scan, Lexer, Token, TokenView};
use crate::numeral::Numeral;

verus! {

/// A syntax tree.
#[derive(Debug)]
pub enum Node {
    List(Vec<Node>),
    Atom(String),
    String(String),
    Number(Numeral),
}

/// What a syntax tree is, as a mathematical value.
pub enum NodeView {
    List(Seq<NodeView>),
    Atom(Seq<char>),
    String(Seq<char>),
    Number(Seq<char>),
}

impl View for Node {
    type V = NodeView;

    open spec fn view(&self) -> NodeView
        decreases self,
    {
        match self {
            Node::List(items) => NodeView::List(
                Seq::new(
                    items@.len(),
                    |i: int|
                        if 0 <= i < items@.len() {
                            items@[i].view()
                        } else {
                            NodeView::List(Seq::empty())
                        },
                ),
            ),
            Node::Atom(name) => NodeView::Atom(name@),
            Node::String(text) => NodeView::String(text@),
            Node::Number(numeral) => NodeView::Number(numeral@),
        }
    }
}

impl DeepView for Node {
    type V = NodeView;

    open spec fn deep_view(&self) -> NodeView {
        self.view()
    }
}

/// The views of a sequence of nodes.
pub open spec fn node_views(items: Seq<Node>) -> Seq<NodeView> {
    Seq::new(items.len(), |i: int| items[i]@)
}

/// The view of a list node is the list of its items' views.
pub proof fn lemma_list_view(items: Vec<Node>)
    ensures
        Node::List(items)@ == NodeView::List(node_views(items@)),
{
    assert(Node::List(items)@->List_0 =~= node_views(items@));
}

impl Node {
    /// Whether two trees are the same: same shape, same names, same texts.
    pub fn same(&self, other: &Node) -> (r: bool)
        ensures
            r == (self@ == other@),
        decreases self,
    {
        match (self, other) {
            (Node::List(a), Node::List(b)) => {
                proof {
                    lemma_list_view(*a);
                    lemma_list_view(*b);
                }
                if a.len() != b.len() {
                    assert(node_views(a@).len() != node_views(b@).len());
                    return false;
                }
                let mut i: usize = 0;
                while i < a.len()
                    invariant
                        i <= a.len(),
                        a.len() == b.len(),
                        *self == Node::List(*a),
                        self@ == NodeView::List(node_views(a@)),
                        other@ == NodeView::List(node_views(b@)),
                        forall|j: int| 0 <= j < i ==> a@[j]@ == b@[j]@,
                    decreases a.len() - i,
                {
                    if !a[i].same(&b[i]) {
                        assert(node_views(a@)[i as int] != node_views(b@)[i as int]);
                        return false;
                    }
                    i += 1;
                }
                assert(node_views(a@) =~= node_views(b@));
                true
            },
            (Node::Atom(a), Node::Atom(b)) => *a == *b,
            (Node::String(a), Node::String(b)) => *a == *b,
            (Node::Number(a), Node::Number(b)) => a.same(b),
            _ => false,
        }
    }
}

impl Clone for Node {
    fn clone(&self) -> (r: Node)
        ensures
            r@ == self@,
        decreases self,
    {
        match self {
            Node::List(items) => {
                let mut copies: Vec<Node> = Vec::new();
                let mut i: usize = 0;
                while i < items.len()
                    invariant
                        i <= items.len(),
                        copies@.len() == i,
                        *self == Node::List(*items),
                        forall|j: int| 0 <= j < i ==> copies@[j]@ == items@[j]@,
                    decreases items.len() - i,
                {
                    proof {
                        assert(decreases_to!(self => self->List_0));
                    }
                    let copy = items[i].clone();
                    copies.push(copy);
                    i += 1;
                }
                proof {
                    lemma_list_view(copies);
                    lemma_list_view(*items);
                    assert(node_views(copies@) =~= node_views(items@));
                }
                Node::List(copies)
            },
            Node::Atom(name) => Node::Atom(name.clone()),
            Node::String(text) => Node::String(text.clone()),
            Node::Number(numeral) => Node::Number(numeral.clone()),
        }
    }
}

impl PartialEq for Node {
    fn eq(&self, other: &Node) -> (r: bool) {
        self.same(other)
    }
}

impl vstd::std_specs::cmp::PartialEqSpecImpl for Node {
    open spec fn obeys_eq_spec() -> bool {
        true
    }

    open spec fn eq_spec(&self, other: &Node) -> bool {
        self@ == other@
    }
}

/// All the tokens of `input`, up to the first place where scanning finds none.
pub open spec fn tokens(input: Seq<char>) -> Seq<TokenView>
    decreases input.len(),
{
    let first = scan(input);
    match first.token {
        Some(token) if first.rest.len() < input.len() => seq![token] + tokens(first.rest),
        _ => Seq::empty(),
    }
}

/// The result of parsing one node: the node, if there is one, and the tokens left.
pub struct Parsed {
    pub node: Option<NodeView>,
    pub rest: Seq<TokenView>,
}

/// The result of parsing the items of a list.
pub struct Items {
    pub nodes: Seq<NodeView>,
    pub rest: Seq<TokenView>,
}

/// The node at the front of `tokens`.
///
/// An identifier, a string or a number is a node by itself. A `(` opens a list,
/// see `list_at`. At a `)` and at the end of the tokens there is no node, and no
/// token is used.
pub open spec fn node_at(tokens: Seq<TokenView>) -> Parsed
    decreases tokens.len(), 2nat,
{
    if tokens.len() == 0 {
        Parsed { node: None, rest: tokens }
    } else {
        match tokens[0] {
            TokenView::LeftParen => list_at(tokens),
            TokenView::RightParen => Parsed { node: None, rest: tokens },
            TokenView::Ident(name) => Parsed { node: Some(NodeView::Atom(name)), rest: tokens.skip(1) },
            TokenView::String(text) => Parsed {
                node: Some(NodeView::String(text)),
                rest: tokens.skip(1),
            },
            TokenView::Number(numeral) => Parsed {
                node: Some(NodeView::Number(numeral)),
                rest: tokens.skip(1),
            },
        }
    }
}

/// The list whose opening token is the first of `tokens`: the items behind it,
/// which must be followed by a `)`. Without the `)` there is no node at all, and
/// the tokens of the items are used up all the same.
pub open spec fn list_at(tokens: Seq<TokenView>) -> Parsed
    decreases tokens.len(), 1nat,
{
    if tokens.len() == 0 {
        Parsed { node: None, rest: tokens }
    } else {
        let items = items_at(tokens.skip(1));
        if items.rest.len() > 0 && items.rest[0] == TokenView::RightParen {
            Parsed { node: Some(NodeView::List(items.nodes)), rest: items.rest.skip(1) }
        } else {
            Parsed { node: None, rest: items.rest }
        }
    }
}

/// The nodes at the front of `tokens`, as many as there are.
///
/// A node always uses at least one token (`lemma_node_uses_tokens`), so the
/// condition on the lengths always holds where there is a node.
pub open spec fn items_at(tokens: Seq<TokenView>) -> Items
    decreases tokens.len(), 3nat,
{
    let first = node_at(tokens);
    match first.node {
        Some(node) if first.rest.len() < tokens.len() => {
            let more = items_at(first.rest);
            Items { nodes: seq![node] + more.nodes, rest: more.rest }
        },
        _ => Items { nodes: Seq::empty(), rest: first.rest },
    }
}

/// Parsing uses tokens from the front only, and a node uses at least one.
pub proof fn lemma_node_uses_tokens(tokens: Seq<TokenView>)
    ensures
        node_at(tokens).rest.len() <= tokens.len(),
        node_at(tokens).node is Some ==> node_at(tokens).rest.len() < tokens.len(),
        list_at(tokens).rest.len() <= tokens.len(),
        list_at(tokens).node is Some ==> list_at(tokens).rest.len() < tokens.len(),
        items_at(tokens).rest.len() <= tokens.len(),
    decreases tokens.len(), 3nat,
{
    if tokens.len() > 0 {
        lemma_items_use_tokens(tokens.skip(1));
    }
    lemma_items_use_tokens(tokens);
}

proof fn lemma_items_use_tokens(tokens: Seq<TokenView>)
    ensures
        items_at(tokens).rest.len() <= tokens.len(),
    decreases tokens.len(), 2nat,
{
    if tokens.len() > 0 {
        if tokens[0] == TokenView::LeftParen {
            lemma_items_use_tokens(tokens.skip(1));
        }
        let first = node_at(tokens);
        if first.node is Some && first.rest.len() < tokens.len() {
            lemma_items_use_tokens(first.rest);
        }
    }
}

/// A parser over the tokens of a `Lexer`, with one token of lookahead.
///
/// Its view is the sequence of tokens that it has not used yet. Once that is
/// empty it stays empty: the parser never asks the lexer again.
pub struct Parser {
    lexer: Lexer,
    current: Option<Token>,
}

impl View for Parser {
    type V = Seq<TokenView>;

    closed spec fn view(&self) -> Seq<TokenView> {
        match self.current {
            Some(token) => seq![token@] + tokens(self.lexer@),
            None => Seq::empty(),
        }
    }
}

impl Parser {
    /// A parser at the first token of what `lexer` has not read yet.
    pub fn new(lexer: Lexer) -> (parser: Parser)
        ensures
            parser@ == tokens(lexer@),
    {
        let mut lexer = lexer;
        proof {
            lemma_scan_uses_input(lexer@);
        }
        let current = lexer.next();
        Parser { lexer, current }
    }

    /// The next token, without using it.
    pub fn current(&self) -> (token: Option<&Token>)
        ensures
            self@.len() == 0 ==> token is None,
            self@.len() > 0 ==> token is Some && token->0@ == self@[0],
    {
        self.current.as_ref()
    }

    /// Uses the next token, if any is left.
    pub fn consume(&mut self) -> (token: Option<Token>)
        ensures
            old(self)@.len() == 0 ==> token is None && final(self)@ == old(self)@,
            old(self)@.len() > 0 ==> token is Some && token->0@ == old(self)@[0] && final(self)@
                == old(self)@.skip(1),
    {
        match self.current.take() {
            None => None,
            Some(token) => {
                proof {
                    lemma_scan_uses_input(self.lexer@);
                }
                self.current = self.lexer.next();
                Some(token)
            },
        }
    }

    /// Uses the next token if it is `token`, and says whether it did.
    pub fn expect(&mut self, token: Token) -> (found: bool)
        ensures
            found == (old(self)@.len() > 0 && old(self)@[0] == token@),
            found ==> final(self)@ == old(self)@.skip(1),
            !found ==> final(self)@ == old(self)@,
    {
        let found = match &self.current {
            Some(current) => *current == token,
            None => false,
        };
        if found {
            self.consume();
        }
        found
    }

    /// Parses the next node.
    pub fn parse(&mut self) -> (node: Option<Node>)
        ensures
            node.deep_view() == node_at(old(self)@).node,
            final(self)@ == node_at(old(self)@).rest,
    {
        self.parse_node()
    }

    /// Parses the next node; `None` ends the sequence of nodes.
    pub fn next(&mut self) -> (node: Option<Node>)
        ensures
            node.deep_view() == node_at(old(self)@).node,
            final(self)@ == node_at(old(self)@).rest,
    {
        self.parse()
    }

    /// Parses the node at the front of the tokens: see `node_at`.
    pub fn parse_node(&mut self) -> (node: Option<Node>)
        ensures
            node.deep_view() == node_at(old(self)@).node,
            final(self)@ == node_at(old(self)@).rest,
        decreases old(self)@.len(), 2nat,
    {
        match &self.current {
            None => {
                return None;
            },
            Some(Token::RightParen) => {
                return None;
            },
            Some(Token::LeftParen) => {
                return self.parse_list();
            },
            _ => {},
        }
        match self.consume() {
            Some(Token::Ident(name)) => Some(Node::Atom(name)),
            Some(Token::String(text)) => Some(Node::String(text)),
            Some(Token::Number(numeral)) => Some(Node::Number(numeral)),
            _ => None,
        }
    }

    /// Parses the list whose opening token is the next token: see `list_at`.
    pub fn parse_list(&mut self) -> (node: Option<Node>)
        ensures
            node.deep_view() == list_at(old(self)@).node,
            final(self)@ == list_at(old(self)@).rest,
        decreases old(self)@.len(), 1nat,
    {
        if self.current.is_none() {
            return None;
        }
        self.consume();
        let ghost start = self@;
        let mut items: Vec<Node> = Vec::new();
        loop
            invariant_except_break
                items_at(start).nodes == node_views(items@) + items_at(self@).nodes,
                items_at(start).rest == items_at(self@).rest,
            invariant
                self@.len() <= start.len(),
                start.len() < old(self)@.len(),
            ensures
                items_at(start).nodes == node_views(items@),
                items_at(start).rest == self@,
            decreases self@.len(),
        {
            let ghost before = self@;
            proof {
                lemma_node_uses_tokens(before);
            }
            match self.parse_node() {
                Some(item) => {
                    items.push(item);
                },
                None => {
                    break ;
                },
            }
        }
        if !self.expect(Token::RightParen) {
            return None;
        }
        proof {
            lemma_list_view(items);
        }
        Some(Node::List(items))
    }
}

} // verus!
