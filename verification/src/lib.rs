//! First-order syntactic unification over string-encoded terms.
//!
//! A term is a string: a variable (one letter followed by digits, `x1`),
//! a constant (a single bare letter, `a`), or a compound
//! (`functor(arg, arg, ...)`). The library classifies terms, decomposes a
//! compound into its first argument and a synthetic rest-term, applies and
//! composes substitutions, and unifies two terms into a most general
//! substitution or a typed failure. A deterministic generator builds the
//! classical pathological term pair whose unifier grows exponentially.

pub mod entities;
pub mod function_parser;
pub mod h_terms_generator;
pub mod substitution;
pub mod term_model;
pub mod text;
pub mod unification;
