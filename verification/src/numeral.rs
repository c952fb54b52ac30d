//! Decimal numerals: the text of a number as it stands in a program.

use vstd::prelude::*;
use crate::text::{chars_of, measure, run, string_of, CharClass};

verus! {

/// The grammar of a numeral: one or more digits, then optionally a point and any
/// number of digits. `42`, `42.` and `42.50` are numerals; `.5`, `1.2.3` and `1..`
/// are not.
pub open spec fn is_numeral(text: Seq<char>) -> bool {
    let whole = run(text, CharClass::Digit) as int;
    &&& whole >= 1
    &&& (whole == text.len() || (text[whole] == '.' && whole + 1 + run(
        text.skip(whole + 1),
        CharClass::Digit,
    ) == text.len()))
}

/// A number in decimal notation, kept as its text.
///
/// The text always follows the grammar of `is_numeral`, so it denotes exactly one
/// rational number. The library never rounds it: the host does, when the evaluator
/// asks.
#[derive(Debug)]
pub struct Numeral {
    text: String,
}

impl View for Numeral {
    type V = Seq<char>;

    closed spec fn view(&self) -> Seq<char> {
        self.text@
    }
}

impl Clone for Numeral {
    fn clone(&self) -> (r: Numeral)
        ensures
            r@ == self@,
    {
        proof {
            use_type_invariant(self);
        }
        Numeral { text: self.text.clone() }
    }
}

impl Numeral {
    #[verifier::type_invariant]
    spec fn grammatical(&self) -> bool {
        is_numeral(self.text@)
    }

    /// Decides whether the characters from `from` up to `to` form a numeral.
    pub(crate) fn check(chars: &Vec<char>, from: usize, to: usize) -> (r: bool)
        requires
            from <= to <= chars.len(),
        ensures
            r == is_numeral(chars@.subrange(from as int, to as int)),
    {
        let ghost text = chars@.subrange(from as int, to as int);
        let whole = measure(chars, from, to, CharClass::Digit);
        if whole == 0 {
            return false;
        }
        if from + whole == to {
            return true;
        }
        if chars[from + whole] != '.' {
            return false;
        }
        let fraction = measure(chars, from + whole + 1, to, CharClass::Digit);
        assert(chars@.subrange(from + whole + 1, to as int) =~= text.skip(whole + 1));
        from + whole + 1 + fraction == to
    }

    /// The numeral made of the characters from `from` up to `to`, if they form one.
    pub(crate) fn from_chars(chars: &Vec<char>, from: usize, to: usize) -> (r: Option<Numeral>)
        requires
            from <= to <= chars.len(),
        ensures
            r is Some <==> is_numeral(chars@.subrange(from as int, to as int)),
            r is Some ==> r->0@ == chars@.subrange(from as int, to as int),
    {
        if Numeral::check(chars, from, to) {
            Some(Numeral { text: string_of(chars, from, to) })
        } else {
            None
        }
    }

    /// Reads a numeral from its text; `None` where the text is not a numeral.
    pub fn new(text: &str) -> (r: Option<Numeral>)
        ensures
            r is Some <==> is_numeral(text@),
            r is Some ==> r->0@ == text@,
    {
        let chars = chars_of(text);
        assert(chars@.subrange(0, chars@.len() as int) =~= text@);
        Numeral::from_chars(&chars, 0, chars.len())
    }

    /// The text of the numeral, which follows the grammar.
    pub fn as_str(&self) -> (text: &str)
        ensures
            text@ == self@,
            is_numeral(text@),
    {
        proof {
            use_type_invariant(self);
        }
        self.text.as_str()
    }

    /// Whether two numerals have the same text.
    pub fn same(&self, other: &Numeral) -> (r: bool)
        ensures
            r == (self@ == other@),
    {
        self.text == other.text
    }
}

} // verus!
