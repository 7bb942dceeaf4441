//! Structural classification of terms. The classes are mutually exclusive:
//! a well-formed term is exactly one of variable, constant, or compound,
//! and the empty string is the sentinel for an exhausted argument list.

use vstd::prelude::*;

use crate::text::{is_digit_char, is_letter_char, digit_char, letter_char};

verus! {

/// A variable name: one letter followed by one or more digits (`x1`, `y0`).
pub open spec fn is_variable_name(s: Seq<char>) -> bool {
    &&& s.len() >= 2
    &&& is_letter_char(s[0])
    &&& forall|i: int| 1 <= i < s.len() ==> is_digit_char(#[trigger] s[i])
}

/// A constant name: exactly one letter, no digits.
pub open spec fn is_constant_name(s: Seq<char>) -> bool {
    s.len() == 1 && is_letter_char(s[0])
}

/// The empty sentinel produced when a compound's argument list runs out.
pub open spec fn is_empty_term(s: Seq<char>) -> bool {
    s.len() == 0
}

/// The shape a compound term presents at its surface: a one-letter functor,
/// an opening parenthesis, and a closing parenthesis at the very end.
pub open spec fn is_functional_shape(s: Seq<char>) -> bool {
    &&& s.len() >= 3
    &&& is_letter_char(s[0])
    &&& s[1] == '('
    &&& s[s.len() - 1] == ')'
}

/// Checks if the term is a variable.
pub fn variable(term: &str) -> (r: bool)
    ensures
        r == is_variable_name(term@),
{
    let n = term.unicode_len();
    if n < 2 {
        return false;
    }
    if !letter_char(term.get_char(0)) {
        return false;
    }
    let mut i: usize = 1;
    while i < n
        invariant
            1 <= i <= n,
            n == term@.len(),
            forall|j: int| 1 <= j < i ==> is_digit_char(#[trigger] term@[j]),
        decreases n - i,
    {
        if !digit_char(term.get_char(i)) {
            return false;
        }
        i += 1;
    }
    true
}

/// Checks if the single term is a constant.
fn constant(term: &str) -> (r: bool)
    ensures
        r == is_constant_name(term@),
{
    term.unicode_len() == 1 && letter_char(term.get_char(0))
}

/// Checks if either term is a constant.
pub fn constants(term1: &str, term2: &str) -> (r: bool)
    ensures
        r == (is_constant_name(term1@) || is_constant_name(term2@)),
{
    constant(term1) || constant(term2)
}

/// Checks if either term is empty.
pub fn empty(term1: &str, term2: &str) -> (r: bool)
    ensures
        r == (is_empty_term(term1@) || is_empty_term(term2@)),
{
    term1.unicode_len() == 0 || term2.unicode_len() == 0
}

/// Checks if the term has the surface shape of a compound:
/// `functor(...)` with a one-letter functor.
pub fn functional(term: &str) -> (r: bool)
    ensures
        r == is_functional_shape(term@),
{
    let n = term.unicode_len();
    n >= 3 && letter_char(term.get_char(0)) && term.get_char(1) == '(' && term.get_char(n - 1)
        == ')'
}

/// A variable is never a constant, a constant never a variable, and neither
/// has the surface shape of a compound: the classes are mutually exclusive.
pub proof fn lemma_classes_exclusive(s: Seq<char>)
    ensures
        !(is_variable_name(s) && is_constant_name(s)),
        !(is_variable_name(s) && is_functional_shape(s)),
        !(is_constant_name(s) && is_functional_shape(s)),
        !(is_variable_name(s) && is_empty_term(s)),
        !(is_constant_name(s) && is_empty_term(s)),
        !(is_functional_shape(s) && is_empty_term(s)),
{
    if is_variable_name(s) && is_functional_shape(s) {
        assert(is_digit_char(s[1]));
    }
}

} // verus!
