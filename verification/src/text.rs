//! Character classes and maximal runs of characters, shared by the scanner and
//! by the numeral grammar.

use vstd::prelude::*;
use vstd::std_specs::iter::IteratorSpec;

verus! {

/// `String::push` appends one character to the end of the string.
pub assume_specification[ std::string::String::push ](s: &mut std::string::String, c: char)
    ensures
        final(s)@ == old(s)@.push(c),
;

/// The sets of characters that the scanner tells apart.
#[derive(Clone, Copy, Debug)]
pub enum CharClass {
    /// Space, tab, carriage return and newline.
    Separator,
    /// The ten ASCII digits.
    Digit,
    /// An ASCII digit or the point.
    Numeral,
    /// Anything that may stand inside an identifier: no separator and no `)`.
    Ident,
    /// Anything that may stand between two quotes: all but the quote itself.
    Quoted,
}

/// Whether `c` separates tokens: a space, a tab, a carriage return or a newline.
pub open spec fn is_separator(c: char) -> bool {
    c == ' ' || c == '\t' || c == '\r' || c == '\n'
}

/// Whether `c` is one of the ASCII digits `0` to `9`.
pub open spec fn is_digit(c: char) -> bool {
    '0' <= c && c <= '9'
}

impl CharClass {
    /// Whether `c` belongs to the class.
    pub open spec fn holds(self, c: char) -> bool {
        match self {
            CharClass::Separator => is_separator(c),
            CharClass::Digit => is_digit(c),
            CharClass::Numeral => is_digit(c) || c == '.',
            CharClass::Ident => !is_separator(c) && c != ')',
            CharClass::Quoted => c != '"',
        }
    }

    /// Decides whether `c` belongs to the class.
    pub fn contains(self, c: char) -> (r: bool)
        ensures
            r == self.holds(c),
    {
        match self {
            CharClass::Separator => c == ' ' || c == '\t' || c == '\r' || c == '\n',
            CharClass::Digit => '0' <= c && c <= '9',
            CharClass::Numeral => ('0' <= c && c <= '9') || c == '.',
            CharClass::Ident => !(c == ' ' || c == '\t' || c == '\r' || c == '\n') && c != ')',
            CharClass::Quoted => c != '"',
        }
    }
}

/// The length of the longest prefix of `s` whose characters all belong to `class`.
pub open spec fn run(s: Seq<char>, class: CharClass) -> nat
    decreases s.len(),
{
    if s.len() > 0 && class.holds(s[0]) {
        1 + run(s.skip(1), class)
    } else {
        0
    }
}

/// A run ends within the text, covers only characters of the class, and stops at
/// the first character outside it.
pub proof fn lemma_run_bounds(s: Seq<char>, class: CharClass)
    ensures
        run(s, class) <= s.len(),
        forall|i: int| 0 <= i < run(s, class) ==> class.holds(#[trigger] s[i]),
        run(s, class) < s.len() ==> !class.holds(s[run(s, class) as int]),
    decreases s.len(),
{
    if s.len() > 0 && class.holds(s[0]) {
        let t = s.skip(1);
        lemma_run_bounds(t, class);
        assert forall|i: int| 0 <= i < run(s, class) implies class.holds(#[trigger] s[i]) by {
            if i > 0 {
                assert(s[i] == t[i - 1]);
            }
        }
    }
}

/// The run is the only length with the three properties of `lemma_run_bounds`.
pub proof fn lemma_run_unique(s: Seq<char>, class: CharClass, n: int)
    requires
        0 <= n <= s.len(),
        forall|i: int| 0 <= i < n ==> class.holds(#[trigger] s[i]),
        n < s.len() ==> !class.holds(s[n]),
    ensures
        run(s, class) == n,
    decreases s.len(),
{
    if n > 0 {
        let t = s.skip(1);
        lemma_run_unique(t, class, n - 1);
    }
}

/// Measures the run of `class` that starts at `from` and is cut off at `to`.
pub(crate) fn measure(chars: &Vec<char>, from: usize, to: usize, class: CharClass) -> (n: usize)
    requires
        from <= to <= chars.len(),
    ensures
        n == run(chars@.subrange(from as int, to as int), class),
        from + n <= to,
{
    let mut i: usize = from;
    while i < to && class.contains(chars[i])
        invariant
            from <= i <= to <= chars.len(),
            forall|j: int| from <= j < i ==> class.holds(#[trigger] chars@[j]),
        decreases to - i,
    {
        i += 1;
    }
    proof {
        lemma_run_unique(chars@.subrange(from as int, to as int), class, i - from);
    }
    i - from
}

/// The characters of a string slice, in order.
pub(crate) fn chars_of(s: &str) -> (chars: Vec<char>)
    ensures
        chars@ == s@,
{
    let mut chars: Vec<char> = Vec::new();
    let mut rest = s.chars();
    loop
        invariant
            chars@ + rest.remaining() == s@,
            rest.decrease() is Some,
        decreases rest.decrease()->0,
    {
        match rest.next() {
            None => {
                return chars;
            },
            Some(c) => {
                chars.push(c);
            },
        }
    }
}

/// The string made of the characters from `from` up to `to`.
pub(crate) fn string_of(chars: &Vec<char>, from: usize, to: usize) -> (s: String)
    requires
        from <= to <= chars.len(),
    ensures
        s@ == chars@.subrange(from as int, to as int),
{
    let mut s = String::new();
    let mut i: usize = from;
    while i < to
        invariant
            from <= i <= to <= chars.len(),
            s@ == chars@.subrange(from as int, i as int),
        decreases to - i,
    {
        s.push(chars[i]);
        i += 1;
    }
    s
}

} // verus!
