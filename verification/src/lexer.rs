//! The scanner: from characters to tokens.
//!
//! `scan` says, for any input, which token stands at its front and what input is
//! left behind it. `Lexer` is the executable scanner; each of its reading methods
//! is specified by the part of `scan` that it implements.

use vstd::prelude::*;
use vstd::std_specs::iter::IteratorSpec;
use crate::numeral::{is_numeral, Numeral};
use crate::text::{chars_of, is_digit, lemma_run_bounds, measure, run, string_of, CharClass};

verus! {

/// One lexical unit of a program.
#[derive(Debug)]
pub enum Token {
    LeftParen,
    RightParen,
    Ident(String),
    String(String),
    Number(Numeral),
}

/// What a token is, as a mathematical value.
pub enum TokenView {
    LeftParen,
    RightParen,
    Ident(Seq<char>),
    String(Seq<char>),
    Number(Seq<char>),
}

impl View for Token {
    type V = TokenView;

    open spec fn view(&self) -> TokenView {
        match self {
            Token::LeftParen => TokenView::LeftParen,
            Token::RightParen => TokenView::RightParen,
            Token::Ident(name) => TokenView::Ident(name@),
            Token::String(text) => TokenView::String(text@),
            Token::Number(numeral) => TokenView::Number(numeral@),
        }
    }
}

impl DeepView for Token {
    type V = TokenView;

    open spec fn deep_view(&self) -> TokenView {
        self.view()
    }
}

impl Clone for Token {
    fn clone(&self) -> (r: Token)
        ensures
            r@ == self@,
    {
        match self {
            Token::LeftParen => Token::LeftParen,
            Token::RightParen => Token::RightParen,
            Token::Ident(name) => Token::Ident(name.clone()),
            Token::String(text) => Token::String(text.clone()),
            Token::Number(numeral) => Token::Number(numeral.clone()),
        }
    }
}

impl PartialEq for Token {
    fn eq(&self, other: &Token) -> (r: bool) {
        match (self, other) {
            (Token::LeftParen, Token::LeftParen) => true,
            (Token::RightParen, Token::RightParen) => true,
            (Token::Ident(a), Token::Ident(b)) => *a == *b,
            (Token::String(a), Token::String(b)) => *a == *b,
            (Token::Number(a), Token::Number(b)) => a.same(b),
            _ => false,
        }
    }
}

impl vstd::std_specs::cmp::PartialEqSpecImpl for Token {
    open spec fn obeys_eq_spec() -> bool {
        true
    }

    open spec fn eq_spec(&self, other: &Token) -> bool {
        self@ == other@
    }
}

/// The character that a backslash followed by `c` stands for, if the pair is an escape.
pub open spec fn unescaped(c: char) -> Option<char> {
    if c == 'n' {
        Some('\n')
    } else if c == 'r' {
        Some('\r')
    } else if c == 't' {
        Some('\t')
    } else {
        None
    }
}

/// The text that the raw characters between two quotes stand for.
///
/// A backslash followed by `n`, `r` or `t` becomes the control character; before any
/// other character, or at the very end, the backslash stands for itself.
pub open spec fn unescaped_text(raw: Seq<char>) -> Seq<char>
    decreases raw.len(),
{
    if raw.len() == 0 {
        Seq::empty()
    } else if raw[0] != '\\' {
        seq![raw[0]] + unescaped_text(raw.skip(1))
    } else if raw.len() == 1 {
        seq!['\\']
    } else {
        match unescaped(raw[1]) {
            Some(c) => seq![c] + unescaped_text(raw.skip(2)),
            None => seq!['\\', raw[1]] + unescaped_text(raw.skip(2)),
        }
    }
}

/// The result of scanning: the token found, if any, and the input left behind it.
pub struct Scanned {
    pub token: Option<TokenView>,
    pub rest: Seq<char>,
}

/// A parenthesis at the front of `s`.
pub open spec fn scan_paren(s: Seq<char>) -> Scanned {
    if s.len() > 0 && s[0] == '(' {
        Scanned { token: Some(TokenView::LeftParen), rest: s.skip(1) }
    } else if s.len() > 0 && s[0] == ')' {
        Scanned { token: Some(TokenView::RightParen), rest: s.skip(1) }
    } else {
        Scanned { token: None, rest: s }
    }
}

/// A string literal whose opening quote is the first character of `s`.
///
/// The literal runs up to the next quote. Without one there is no token, and all
/// the input is used up.
pub open spec fn scan_string(s: Seq<char>) -> Scanned {
    let body = if s.len() > 0 {
        s.skip(1)
    } else {
        s
    };
    let n = run(body, CharClass::Quoted) as int;
    if n < body.len() {
        Scanned { token: Some(TokenView::String(unescaped_text(body.take(n)))), rest: body.skip(n + 1) }
    } else {
        Scanned { token: None, rest: Seq::empty() }
    }
}

/// A number at the front of `s`: the longest run of digits and points, which must
/// be a numeral. The run is used up either way.
pub open spec fn scan_number(s: Seq<char>) -> Scanned {
    let n = run(s, CharClass::Numeral) as int;
    let text = s.take(n);
    Scanned {
        token: if is_numeral(text) {
            Some(TokenView::Number(text))
        } else {
            None
        },
        rest: s.skip(n),
    }
}

/// An identifier at the front of `s`: everything up to the next separator or `)`.
/// A `(` does not end it.
pub open spec fn scan_ident(s: Seq<char>) -> Scanned {
    let n = run(s, CharClass::Ident) as int;
    Scanned { token: Some(TokenView::Ident(s.take(n))), rest: s.skip(n) }
}

/// The first token of `input` and the input behind it.
///
/// Separators before the token are skipped. There is no token where only
/// separators are left, where a string literal is not closed, and where a run of
/// digits and points is not a numeral.
pub open spec fn scan(input: Seq<char>) -> Scanned {
    let s = input.skip(run(input, CharClass::Separator) as int);
    if s.len() == 0 {
        Scanned { token: None, rest: s }
    } else if s[0] == '(' || s[0] == ')' {
        scan_paren(s)
    } else if s[0] == '"' {
        scan_string(s)
    } else if is_digit(s[0]) {
        scan_number(s)
    } else {
        scan_ident(s)
    }
}

/// A token is never empty: where scanning finds one, it uses some input.
pub proof fn lemma_scan_uses_input(input: Seq<char>)
    ensures
        scan(input).rest.len() <= input.len(),
        scan(input).token is Some ==> scan(input).rest.len() < input.len(),
{
    lemma_run_bounds(input, CharClass::Separator);
    let s = input.skip(run(input, CharClass::Separator) as int);
    if s.len() > 0 {
        lemma_run_bounds(s, CharClass::Numeral);
        lemma_run_bounds(s, CharClass::Ident);
    }
}

/// The control character that a backslash followed by `c` stands for, if any.
pub fn unescape_char(c: char) -> (r: Option<char>)
    ensures
        r == unescaped(c),
{
    match c {
        'n' => Some('\n'),
        'r' => Some('\r'),
        't' => Some('\t'),
        _ => None,
    }
}

/// The text that the raw characters of a string literal stand for.
pub fn unescape_str(src: &str) -> (dst: String)
    ensures
        dst@ == unescaped_text(src@),
{
    let mut dst = String::new();
    let mut chars = src.chars();
    loop
        invariant
            unescaped_text(src@) == dst@ + unescaped_text(chars.remaining()),
            chars.decrease() is Some,
        decreases chars.decrease()->0,
    {
        let ghost before = chars.remaining();
        match chars.next() {
            None => {
                return dst;
            },
            Some('\\') => {
                match chars.next() {
                    None => {
                        dst.push('\\');
                        return dst;
                    },
                    Some(c) => {
                        assert(chars.remaining() =~= before.skip(2));
                        match unescape_char(c) {
                            Some(e) => {
                                dst.push(e);
                            },
                            None => {
                                dst.push('\\');
                                dst.push(c);
                            },
                        }
                    },
                }
            },
            Some(c) => {
                dst.push(c);
            },
        }
    }
}

/// A scanner over the characters of a program.
///
/// Its view is the input that it has not read yet.
pub struct Lexer {
    source: Vec<char>,
    position: usize,
}

impl View for Lexer {
    type V = Seq<char>;

    closed spec fn view(&self) -> Seq<char> {
        self.source@.skip(self.position as int)
    }
}

impl Lexer {
    #[verifier::type_invariant]
    spec fn within(&self) -> bool {
        self.position <= self.source.len()
    }

    /// A scanner at the start of `source`.
    pub fn new(source: &str) -> (lexer: Lexer)
        ensures
            lexer@ == source@,
    {
        let chars = chars_of(source);
        Lexer { source: chars, position: 0 }
    }

    /// The next character, without reading it.
    pub fn current(&self) -> (c: Option<char>)
        ensures
            c == (if self@.len() > 0 {
                Some(self@[0])
            } else {
                None
            }),
    {
        proof {
            use_type_invariant(self);
        }
        if self.position < self.source.len() {
            Some(self.source[self.position])
        } else {
            None
        }
    }

    /// Reads one character, if any is left.
    pub fn consume(&mut self) -> (c: Option<char>)
        ensures
            old(self)@.len() == 0 ==> c is None && final(self)@ == old(self)@,
            old(self)@.len() > 0 ==> c == Some(old(self)@[0]) && final(self)@ == old(self)@.skip(1),
    {
        proof {
            use_type_invariant(&*self);
        }
        if self.position < self.source.len() {
            let c = self.source[self.position];
            self.position += 1;
            Some(c)
        } else {
            None
        }
    }

    /// Reads the next character if it is `c`, and says whether it did.
    pub fn expect(&mut self, c: char) -> (found: bool)
        ensures
            found == (old(self)@.len() > 0 && old(self)@[0] == c),
            found ==> final(self)@ == old(self)@.skip(1),
            !found ==> final(self)@ == old(self)@,
    {
        if self.current() == Some(c) {
            self.consume();
            true
        } else {
            false
        }
    }

    /// Reads the longest run of `class` and returns where it began and ended in
    /// the source.
    fn advance(&mut self, class: CharClass) -> (span: (usize, usize))
        ensures
            span.0 == old(self).position,
            span.1 == final(self).position,
            final(self).source == old(self).source,
            span.1 - span.0 == run(old(self)@, class),
            span.0 <= span.1 <= final(self).source.len(),
            final(self)@ == old(self)@.skip(run(old(self)@, class) as int),
            final(self).source@.subrange(span.0 as int, span.1 as int) == old(self)@.take(
                run(old(self)@, class) as int,
            ),
    {
        proof {
            use_type_invariant(&*self);
        }
        let from = self.position;
        let n = measure(&self.source, from, self.source.len(), class);
        self.position = from + n;
        (from, from + n)
    }

    /// Reads the separators at the front of the input.
    pub fn skip_separators(&mut self)
        ensures
            final(self)@ == old(self)@.skip(run(old(self)@, CharClass::Separator) as int),
    {
        self.advance(CharClass::Separator);
    }

    /// Reads a parenthesis, if one stands at the front of the input.
    pub fn read_paren(&mut self) -> (token: Option<Token>)
        ensures
            token.deep_view() == scan_paren(old(self)@).token,
            final(self)@ == scan_paren(old(self)@).rest,
    {
        match self.current() {
            Some('(') => {
                self.consume();
                Some(Token::LeftParen)
            },
            Some(')') => {
                self.consume();
                Some(Token::RightParen)
            },
            _ => None,
        }
    }

    /// Reads a string literal whose opening quote is the next character.
    pub fn read_string(&mut self) -> (token: Option<Token>)
        ensures
            token.deep_view() == scan_string(old(self)@).token,
            final(self)@ == scan_string(old(self)@).rest,
    {
        self.consume();
        let ghost body = self@;
        let (from, to) = self.advance(CharClass::Quoted);
        proof {
            lemma_run_bounds(body, CharClass::Quoted);
        }
        let raw = string_of(&self.source, from, to);
        if !self.expect('"') {
            return None;
        }
        Some(Token::String(unescape_str(raw.as_str())))
    }

    /// Reads the digits and points at the front of the input, which make a number
    /// if they are a numeral.
    pub fn read_number(&mut self) -> (token: Option<Token>)
        ensures
            token.deep_view() == scan_number(old(self)@).token,
            final(self)@ == scan_number(old(self)@).rest,
    {
        let (from, to) = self.advance(CharClass::Numeral);
        proof {
            use_type_invariant(&*self);
        }
        match Numeral::from_chars(&self.source, from, to) {
            Some(numeral) => Some(Token::Number(numeral)),
            None => None,
        }
    }

    /// Reads an identifier: everything up to the next separator or `)`.
    pub fn read_ident(&mut self) -> (token: Option<Token>)
        ensures
            token.deep_view() == scan_ident(old(self)@).token,
            final(self)@ == scan_ident(old(self)@).rest,
    {
        let (from, to) = self.advance(CharClass::Ident);
        proof {
            use_type_invariant(&*self);
        }
        Some(Token::Ident(string_of(&self.source, from, to)))
    }

    /// Reads the next token.
    pub fn read_token(&mut self) -> (token: Option<Token>)
        ensures
            token.deep_view() == scan(old(self)@).token,
            final(self)@ == scan(old(self)@).rest,
    {
        self.skip_separators();
        let current = match self.current() {
            Some(c) => c,
            None => return None,
        };
        if current == '(' || current == ')' {
            self.read_paren()
        } else if current == '"' {
            self.read_string()
        } else if '0' <= current && current <= '9' {
            self.read_number()
        } else {
            self.read_ident()
        }
    }

    /// Reads the next token; `None` ends the stream.
    pub fn next(&mut self) -> (token: Option<Token>)
        ensures
            token.deep_view() == scan(old(self)@).token,
            final(self)@ == scan(old(self)@).rest,
    {
        self.read_token()
    }
}

} // verus!
