//! The basic vocabulary of the library: the textual term representation,
//! the generator's size parameter, and the typed unification failures.

use vstd::prelude::*;

verus! {

/// A term is kept in its textual form: a variable (`x1`), a constant (`a`),
/// or a compound (`h(x1, f(y0, y0), y1)`). The empty string is the sentinel
/// for an exhausted argument list and unifies with nothing.
pub type Term = String;

/// The size parameter of the pathological term-pair generator.
pub type HTermsGeneratorParam = u64;

/// Why a call failed. Every failure aborts the whole call: there is no
/// partial unifier.
#[derive(Debug)]
pub enum UnificationError {
    /// One of the two terms is a constant or the empty sentinel (or is not a
    /// well-formed term at all) and the terms are not identical. Carries both
    /// operand terms.
    ConstantOrEmptyMismatch { term1: Term, term2: Term },
    /// A variable would have to be bound to a term containing itself.
    /// Carries the variable and the offending term.
    OccursCheckFailure { variable: Term, term: Term },
    /// The generator's size parameter was less than 1.
    InvalidGeneratorParameter,
    /// The recursion-depth bound handed to the unifier ran out before the
    /// terms were fully processed.
    ResourceExhaustion,
}

} // verus!
