use sexpr::lexer::{Lexer, Token};
use sexpr::numeral::Numeral;
use sexpr::parser::{Node, Parser};

fn number(text: &str) -> Node {
    Node::Number(Numeral::new(text).unwrap())
}

fn atom(name: &str) -> Node {
    Node::Atom(name.to_string())
}

fn string(text: &str) -> Node {
    Node::String(text.to_string())
}

fn parser_of(expr: &str) -> Parser {
    Parser::new(Lexer::new(expr))
}

fn assert_expr(expr: &str, expected: Option<Node>) {
    let lexer = Lexer::new(expr);
    let mut parser = Parser::new(lexer);

    assert_eq!(parser.parse(), expected);
}

fn assert_round_trip(node: Node) {
    let text = node.to_source();
    let mut parser = parser_of(&text);
    assert_eq!(parser.parse(), Some(node), "{:?}", text);
    assert_eq!(parser.current(), None);
}

#[test]
fn test_simple() {
    assert_expr("", None);
    assert_expr("()", Some(Node::List(vec![])));
    assert_expr(
        "(f 42 \"hello\")",
        Some(Node::List(vec![
            Node::Atom("f".to_string()),
            number("42"),
            Node::String("hello".to_string()),
        ])),
    );
}

#[test]
fn number_node_holds_the_value_written() {
    let mut parser = parser_of("(f 42 \"hello\")");
    match parser.parse() {
        Some(Node::List(items)) => match &items[1] {
            Node::Number(numeral) => {
                assert_eq!(numeral.as_str().parse::<f64>().unwrap(), 42.0)
            }
            other => panic!("not a number: {:?}", other),
        },
        other => panic!("not a list: {:?}", other),
    }
}

#[test]
fn leaves_are_nodes() {
    assert_expr("x", Some(atom("x")));
    assert_expr("\"x\"", Some(string("x")));
    assert_expr("1.5", Some(number("1.5")));
}

#[test]
fn lists_nest() {
    assert_expr(
        "(* (+ 2 2) (- 5 3))",
        Some(Node::List(vec![
            atom("*"),
            Node::List(vec![atom("+"), number("2"), number("2")]),
            Node::List(vec![atom("-"), number("5"), number("3")]),
        ])),
    );
    assert_expr("(())", Some(Node::List(vec![Node::List(vec![])])));
}

#[test]
fn missing_close_paren_gives_no_partial_list() {
    assert_expr("(f 42", None);
    assert_expr("(", None);
    assert_expr("(a (b c)", None);
    assert_expr("(a \"open", None);
    assert_expr("(a 1.2.3)", None);
}

#[test]
fn stray_close_paren_is_not_consumed() {
    let mut parser = parser_of(") x");
    assert_eq!(parser.parse(), None);
    assert_eq!(parser.current(), Some(&Token::RightParen));
    assert_eq!(parser.parse(), None);
    assert_eq!(parser.current(), Some(&Token::RightParen));
}

#[test]
fn nodes_come_one_after_the_other() {
    let mut parser = parser_of("a (b) \"c\" 4");
    assert_eq!(parser.next(), Some(atom("a")));
    assert_eq!(parser.next(), Some(Node::List(vec![atom("b")])));
    assert_eq!(parser.next(), Some(string("c")));
    assert_eq!(parser.next(), Some(number("4")));
    assert_eq!(parser.next(), None);
    assert_eq!(parser.next(), None);
}

#[test]
fn a_failure_ends_the_sequence_for_good() {
    let mut parser = parser_of("a (b 1.2.3 c) d");
    assert_eq!(parser.next(), Some(atom("a")));
    assert_eq!(parser.next(), None);
    assert_eq!(parser.next(), None);
    assert_eq!(parser.current(), None);

    let mut parser = parser_of("(print \"a\") (print");
    assert_eq!(parser.next(), Some(Node::List(vec![atom("print"), string("a")])));
    assert_eq!(parser.next(), None);
    assert_eq!(parser.next(), None);
}

#[test]
fn the_sequence_does_not_start_again_behind_a_bad_token() {
    let mut parser = parser_of("1.2.3 foo");
    assert_eq!(parser.current(), None);
    assert_eq!(parser.parse(), None);
    assert_eq!(parser.consume(), None);
    assert_eq!(parser.parse(), None);
}

#[test]
fn consume_and_expect_move_over_tokens() {
    let mut parser = parser_of("( a )");
    assert_eq!(parser.current(), Some(&Token::LeftParen));
    assert!(!parser.expect(Token::RightParen));
    assert!(parser.expect(Token::LeftParen));
    assert_eq!(parser.consume(), Some(Token::Ident("a".to_string())));
    assert!(!parser.expect(Token::Ident("a".to_string())));
    assert!(parser.expect(Token::RightParen));
    assert_eq!(parser.current(), None);
    assert!(!parser.expect(Token::RightParen));
    assert_eq!(parser.consume(), None);
}

#[test]
fn parse_list_reads_items_up_to_the_close_paren() {
    let mut parser = parser_of("(a b) c");
    assert_eq!(parser.parse_list(), Some(Node::List(vec![atom("a"), atom("b")])));
    assert_eq!(parser.parse_node(), Some(atom("c")));
    assert_eq!(parser.parse_list(), None);
}

#[test]
fn source_text_of_nodes() {
    assert_eq!(atom("f").to_source(), "f");
    assert_eq!(string("hello").to_source(), "\"hello\"");
    assert_eq!(number("42").to_source(), "42");
    assert_eq!(Node::List(vec![]).to_source(), "()");
    assert_eq!(Node::List(vec![atom("f")]).to_source(), "(f)");
    assert_eq!(
        Node::List(vec![atom("f"), number("42"), string("hello")]).to_source(),
        "(f 42 \"hello\")"
    );
    assert_eq!(
        Node::List(vec![Node::List(vec![]), Node::List(vec![atom("a"), Node::List(vec![])])])
            .to_source(),
        "(() (a ()))"
    );
    let mut text = String::from("x = ");
    atom("y").write(&mut text);
    assert_eq!(text, "x = y");
}

#[test]
fn written_and_read_back_a_node_is_what_it_was() {
    assert_round_trip(atom("f"));
    assert_round_trip(atom("foo(bar"));
    assert_round_trip(atom("+"));
    assert_round_trip(atom("a\"b"));
    assert_round_trip(atom("\u{3bb}"));
    assert_round_trip(string(""));
    assert_round_trip(string("hello world (x) 1"));
    assert_round_trip(string("line\nbreak\ttab"));
    assert_round_trip(string("back\\slash"));
    assert_round_trip(string("two\\\\n"));
    assert_round_trip(string("tail\\"));
    assert_round_trip(number("42"));
    assert_round_trip(number("42."));
    assert_round_trip(number("0.125"));
    assert_round_trip(Node::List(vec![]));
    assert_round_trip(Node::List(vec![number("1"), number("2")]));
    assert_round_trip(Node::List(vec![
        atom("define"),
        atom("f"),
        Node::List(vec![
            atom("lambda"),
            Node::List(vec![atom("x"), atom("y")]),
            Node::List(vec![atom("*"), atom("x"), Node::List(vec![atom("+"), atom("y"), number("1.5")])]),
        ]),
        string("doc"),
        Node::List(vec![]),
    ]));
}

#[test]
fn what_cannot_be_written_is_not_read_back() {
    for node in [
        atom(""),
        atom("a b"),
        atom("a)"),
        atom("1a"),
        atom("(a"),
        atom("\"a"),
        string("say \"hi\""),
        string("a\\nb"),
    ] {
        let text = node.to_source();
        assert_ne!(parser_of(&text).parse(), Some(node), "{:?}", text);
    }
}

#[test]
fn nodes_are_compared_by_what_they_hold() {
    assert_eq!(atom("a"), atom("a"));
    assert_ne!(atom("a"), string("a"));
    assert_ne!(number("1"), number("1.0"));
    assert_eq!(Node::List(vec![atom("a")]), Node::List(vec![atom("a")]));
    assert_ne!(Node::List(vec![atom("a")]), Node::List(vec![atom("a"), atom("a")]));
    assert_ne!(Node::List(vec![atom("a")]), Node::List(vec![atom("b")]));
    assert_ne!(Node::List(vec![]), atom("a"));
    let node = Node::List(vec![atom("a"), Node::List(vec![number("2"), string("s")])]);
    assert_eq!(node.clone(), node);
    assert!(node.same(&node.clone()));
}
