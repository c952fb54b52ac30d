use sexpr::lexer::{unescape_char, unescape_str, Lexer, Token};
use sexpr::numeral::Numeral;

fn number(text: &str) -> Token {
    Token::Number(Numeral::new(text).unwrap())
}

fn ident(name: &str) -> Token {
    Token::Ident(name.to_string())
}

fn tokens_of(expr: &str) -> Vec<Token> {
    let mut lexer = Lexer::new(expr);
    let mut tokens = Vec::new();
    while let Some(token) = lexer.next() {
        tokens.push(token);
    }
    tokens
}

fn assert_tokens(expr: &str, expected: &[Token]) {
    assert_eq!(tokens_of(expr), expected);
}

#[test]
fn test_simples() {
    assert_tokens("()", &[Token::LeftParen, Token::RightParen]);

    assert_tokens(
        "(f 42 \"hello\")",
        &[
            Token::LeftParen,
            Token::Ident("f".to_string()),
            number("42"),
            Token::String("hello".to_string()),
            Token::RightParen,
        ],
    );
    let tokens = tokens_of("(f 42 \"hello\")");
    match &tokens[2] {
        Token::Number(numeral) => assert_eq!(numeral.as_str().parse::<f64>().unwrap(), 42.0),
        other => panic!("not a number: {:?}", other),
    }
}

#[test]
fn test_unary_list() {
    assert_tokens(
        "(toto)",
        &[Token::LeftParen, Token::Ident("toto".to_string()), Token::RightParen],
    );
}

#[test]
fn test_newline() {
    assert_tokens(
        "(toto\ntata)",
        &[
            Token::LeftParen,
            Token::Ident("toto".to_string()),
            Token::Ident("tata".to_string()),
            Token::RightParen,
        ],
    );
}

#[test]
fn empty_input_has_no_token() {
    assert_tokens("", &[]);
    assert_tokens(" \t\r\n", &[]);
}

#[test]
fn all_four_separators_are_skipped() {
    assert_tokens(" a\tb\rc\nd ", &[ident("a"), ident("b"), ident("c"), ident("d")]);
}

#[test]
fn left_paren_does_not_end_an_identifier() {
    assert_tokens("foo(bar", &[ident("foo(bar")]);
    assert_tokens("foo(bar)", &[ident("foo(bar"), Token::RightParen]);
}

#[test]
fn quote_and_digit_do_not_end_an_identifier() {
    assert_tokens("a\"b 1", &[ident("a\"b"), number("1")]);
    assert_tokens("x1.5", &[ident("x1.5")]);
    assert_tokens("+ - * /", &[ident("+"), ident("-"), ident("*"), ident("/")]);
}

#[test]
fn numerals_may_have_one_point() {
    assert_tokens("42", &[number("42")]);
    assert_tokens("42.", &[number("42.")]);
    assert_tokens("42.50", &[number("42.50")]);
    assert_tokens("007", &[number("007")]);
}

#[test]
fn malformed_number_ends_the_stream() {
    assert_tokens("1.2.3", &[]);
    assert_tokens("a 1..2 b", &[ident("a")]);
    assert_tokens("(+ 1 2.3.4) (f)", &[Token::LeftParen, ident("+"), number("1")]);
}

#[test]
fn malformed_number_uses_up_its_run() {
    let mut lexer = Lexer::new("1.2.3 foo");
    assert_eq!(lexer.next(), None);
    assert_eq!(lexer.current(), Some(' '));
    assert_eq!(lexer.next(), Some(ident("foo")));
}

#[test]
fn number_ends_at_the_first_other_character() {
    assert_tokens("12abc", &[number("12"), ident("abc")]);
    assert_tokens("1(2", &[number("1"), Token::LeftParen, number("2")]);
}

#[test]
fn unterminated_string_ends_the_stream() {
    assert_tokens("\"abc", &[]);
    assert_tokens("a \"abc", &[ident("a")]);
    let mut lexer = Lexer::new("\"abc d");
    assert_eq!(lexer.next(), None);
    assert_eq!(lexer.current(), None);
}

#[test]
fn strings_may_hold_anything_but_a_quote() {
    assert_tokens("\"\"", &[Token::String(String::new())]);
    assert_tokens("\"a (b) 1\nc\"", &[Token::String("a (b) 1\nc".to_string())]);
    assert_tokens("\"a\"\"b\"", &[Token::String("a".to_string()), Token::String("b".to_string())]);
}

#[test]
fn a_backslash_does_not_hide_a_quote() {
    assert_tokens("\"a\\\" b", &[Token::String("a\\".to_string()), ident("b")]);
}

#[test]
fn escapes_in_strings_stand_for_control_characters() {
    assert_tokens("\"a\\nb\"", &[Token::String("a\nb".to_string())]);
    assert_tokens("\"a\\rb\\tc\"", &[Token::String("a\rb\tc".to_string())]);
    assert_tokens("\"a\\qb\"", &[Token::String("a\\qb".to_string())]);
    assert_tokens("\"a\\\\nb\"", &[Token::String("a\\\\nb".to_string())]);
}

#[test]
fn unescape_char_knows_three_escapes() {
    assert_eq!(unescape_char('n'), Some('\n'));
    assert_eq!(unescape_char('r'), Some('\r'));
    assert_eq!(unescape_char('t'), Some('\t'));
    assert_eq!(unescape_char('q'), None);
    assert_eq!(unescape_char('\\'), None);
    assert_eq!(unescape_char('"'), None);
}

#[test]
fn unescape_str_replaces_escapes() {
    assert_eq!(unescape_str(""), "");
    assert_eq!(unescape_str("plain"), "plain");
    assert_eq!(unescape_str("a\\nb"), "a\nb");
    assert_eq!(unescape_str("\\r\\t"), "\r\t");
    assert_eq!(unescape_str("\\q"), "\\q");
    assert_eq!(unescape_str("tail\\"), "tail\\");
    assert_eq!(unescape_str("\\\\n"), "\\\\n");
    assert_eq!(unescape_str("\\\\\\n"), "\\\\\n");
    assert_eq!(unescape_str("h\u{e9}\\t\u{4e16}"), "h\u{e9}\t\u{4e16}");
}

#[test]
fn lexer_reads_one_character_at_a_time() {
    let mut lexer = Lexer::new("ab");
    assert_eq!(lexer.current(), Some('a'));
    assert_eq!(lexer.consume(), Some('a'));
    assert_eq!(lexer.current(), Some('b'));
    assert!(!lexer.expect('a'));
    assert_eq!(lexer.current(), Some('b'));
    assert!(lexer.expect('b'));
    assert_eq!(lexer.current(), None);
    assert_eq!(lexer.consume(), None);
    assert!(!lexer.expect('b'));
}

#[test]
fn skip_separators_stops_at_the_first_other_character() {
    let mut lexer = Lexer::new(" \t\r\n x y");
    lexer.skip_separators();
    assert_eq!(lexer.current(), Some('x'));
    lexer.skip_separators();
    assert_eq!(lexer.current(), Some('x'));
}

#[test]
fn reading_methods_work_on_their_own() {
    let mut lexer = Lexer::new("(x");
    assert_eq!(lexer.read_paren(), Some(Token::LeftParen));
    assert_eq!(lexer.read_paren(), None);
    assert_eq!(lexer.read_ident(), Some(ident("x")));
    assert_eq!(lexer.read_ident(), Some(ident("")));
    assert_eq!(lexer.read_number(), None);
    assert_eq!(lexer.read_string(), None);

    let mut lexer = Lexer::new("\"hi\"12.5)");
    assert_eq!(lexer.read_string(), Some(Token::String("hi".to_string())));
    assert_eq!(lexer.read_number(), Some(number("12.5")));
    assert_eq!(lexer.read_paren(), Some(Token::RightParen));
}

#[test]
fn characters_outside_ascii_are_whole_characters() {
    assert_tokens("(\u{3bb} \"\u{e9}\")", &[
        Token::LeftParen,
        ident("\u{3bb}"),
        Token::String("\u{e9}".to_string()),
        Token::RightParen,
    ]);
}

#[test]
fn numeral_grammar() {
    for text in ["0", "42", "42.", "42.5", "0.000", "123456789012345678901234567890"] {
        assert_eq!(Numeral::new(text).unwrap().as_str(), text);
    }
    for text in ["", ".", ".5", "1.2.3", "1..", "1e5", "-1", "+1", "1 ", " 1", "a", "1a", "inf"] {
        assert!(Numeral::new(text).is_none(), "{:?}", text);
    }
}

#[test]
fn every_numeral_is_a_number_to_the_host() {
    for text in ["0", "42", "42.", "42.5", "0.000", "123456789012345678901234567890"] {
        let numeral = Numeral::new(text).unwrap();
        assert!(numeral.as_str().parse::<f64>().is_ok());
    }
    assert_eq!(Numeral::new("42.").unwrap().as_str().parse::<f64>().unwrap(), 42.0);
}

#[test]
fn tokens_are_compared_by_what_they_hold() {
    assert_eq!(ident("a"), ident("a"));
    assert_ne!(ident("a"), ident("b"));
    assert_ne!(ident("a"), Token::String("a".to_string()));
    assert_ne!(number("1"), number("1."));
    assert_eq!(number("1").clone(), number("1"));
    assert_ne!(Token::LeftParen, Token::RightParen);
}
