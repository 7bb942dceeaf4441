//! The recursive unification algorithm. Each call classifies the two terms
//! and, in priority order, returns the empty substitution for identical
//! terms, rejects constants and empty sentinels, binds a variable after the
//! occurs check, or decomposes two compounds and unifies head and tail in
//! turn, composing the two partial substitutions. A failure at any depth
//! aborts the whole call: unification is all-or-nothing.

use vstd::prelude::*;

use crate::entities::UnificationError;
use crate::function_parser::{
    head_of, inner_of, parse_head_and_tail_of_functional_term, split_top_args, tail_of,
    ParserOutput,
};
use crate::substitution::{
    apply, apply_bindings, chars_at, compose_bindings, Substitution,
};
use crate::term_model::{
    constants, empty, functional, is_constant_name, is_empty_term, is_functional_shape,
    is_variable_name, variable,
};
use crate::text::{str_eq, token_at, token_occurs, word_char};

verus! {

/// Checks if the term1 occurs in the term2 as a whole token: the occurs
/// check works on whole variable tokens, so `x1` does not count as
/// occurring inside `x10`.
pub fn occurs(term1: &str, term2: &str) -> (r: bool)
    ensures
        r == token_occurs(term1@, term2@),
{
    let n = term2.unicode_len();
    let k = term1.unicode_len();
    if k > n {
        proof {
            assert(forall|i: int| !token_at(term2@, term1@, i));
        }
        return false;
    }
    let limit = n - k;
    let mut i: usize = 0;
    while i <= limit
        invariant
            0 <= i <= limit,
            limit == n - k,
            k <= n,
            n == term2@.len(),
            k == term1@.len(),
            forall|j: int| 0 <= j < i ==> !token_at(term2@, term1@, j),
        decreases limit - i,
    {
        let left_free = i == 0 || !word_char(term2.get_char(i - 1));
        let right_free = i + k == n || !word_char(term2.get_char(i + k));
        if left_free && right_free && chars_at(term2, i, term1) {
            proof {
                assert(token_at(term2@, term1@, i as int));
            }
            return true;
        }
        proof {
            assert(!token_at(term2@, term1@, i as int));
        }
        if i == limit {
            proof {
                assert forall|j: int| !token_at(term2@, term1@, j) by {
                    if 0 <= j && j + k <= n {
                        assert(!token_at(term2@, term1@, j));
                    }
                }
            }
            return false;
        }
        i += 1;
    }
    false
}

/// The outcome of unification over the mathematical term model: the
/// bindings of the produced substitution, or the failure with its operands.
pub enum UnifyModel {
    Success(Seq<(Seq<char>, Seq<char>)>),
    ConstantOrEmptyMismatch(Seq<char>, Seq<char>),
    OccursCheckFailure(Seq<char>, Seq<char>),
    Exhausted,
}

/// What unifying two terms yields, by the case analysis of the algorithm in
/// its priority order: trivial success on identical terms; a mismatch when
/// a constant, an empty sentinel, or a malformed term is involved; a
/// variable bound after the occurs check, from either side; otherwise
/// head/tail decomposition of both compounds, with the head substitution
/// applied to both tails and the two substitutions composed. `depth` bounds
/// the recursion; a run that exceeds it is exhausted.
pub open spec fn unify_model(t1: Seq<char>, t2: Seq<char>, depth: nat) -> UnifyModel
    decreases depth,
{
    if depth == 0 {
        UnifyModel::Exhausted
    } else if t1 == t2 {
        UnifyModel::Success(Seq::empty())
    } else if is_constant_name(t1) || is_constant_name(t2) || is_empty_term(t1) || is_empty_term(
        t2,
    ) {
        UnifyModel::ConstantOrEmptyMismatch(t1, t2)
    } else if is_variable_name(t1) {
        if token_occurs(t1, t2) {
            UnifyModel::OccursCheckFailure(t1, t2)
        } else {
            UnifyModel::Success(seq![(t1, t2)])
        }
    } else if is_variable_name(t2) {
        if token_occurs(t2, t1) {
            UnifyModel::OccursCheckFailure(t2, t1)
        } else {
            UnifyModel::Success(seq![(t2, t1)])
        }
    } else if !is_functional_shape(t1) || !is_functional_shape(t2) {
        UnifyModel::ConstantOrEmptyMismatch(t1, t2)
    } else {
        let args1 = split_top_args(inner_of(t1));
        let args2 = split_top_args(inner_of(t2));
        match unify_model(head_of(args1), head_of(args2), (depth - 1) as nat) {
            UnifyModel::Success(subs1) => {
                let tail1 = apply_bindings(subs1, tail_of(args1));
                let tail2 = apply_bindings(subs1, tail_of(args2));
                match unify_model(tail1, tail2, (depth - 1) as nat) {
                    UnifyModel::Success(subs2) => UnifyModel::Success(
                        compose_bindings(subs1, subs2),
                    ),
                    failure => failure,
                }
            },
            failure => failure,
        }
    }
}

/// The exec result agrees with the model outcome: a success carries exactly
/// the model's bindings, a failure carries the model's kind and operands.
pub open spec fn result_matches_model(
    res: Result<Substitution, UnificationError>,
    m: UnifyModel,
) -> bool {
    match res {
        Ok(s) => s.wf() && m == UnifyModel::Success(s@),
        Err(e) => match m {
            UnifyModel::Success(_) => false,
            UnifyModel::ConstantOrEmptyMismatch(a, b) => e matches
                UnificationError::ConstantOrEmptyMismatch { term1, term2 } && term1@ == a && term2@
                == b,
            UnifyModel::OccursCheckFailure(v, t) => e matches UnificationError::OccursCheckFailure {
                variable,
                term,
            } && variable@ == v && term@ == t,
            UnifyModel::Exhausted => e is ResourceExhaustion,
        },
    }
}

/// The unification algorithm with an explicit bound on the recursion depth,
/// reported as resource exhaustion when it runs out.
pub fn unify_with_depth(term1: &str, term2: &str, depth: u64) -> (res: Result<
    Substitution,
    UnificationError,
>)
    ensures
        result_matches_model(res, unify_model(term1@, term2@, depth as nat)),
    decreases depth,
{
    if depth == 0 {
        return Err(UnificationError::ResourceExhaustion);
    }
    if str_eq(term1, term2) {
        return Ok(Substitution::new());
    }
    if constants(term1, term2) || empty(term1, term2) {
        return Err(UnificationError::ConstantOrEmptyMismatch {
            term1: String::from_str(term1),
            term2: String::from_str(term2),
        });
    }
    if variable(term1) {
        if occurs(term1, term2) {
            return Err(UnificationError::OccursCheckFailure {
                variable: String::from_str(term1),
                term: String::from_str(term2),
            });
        }
        return Ok(Substitution::single(term1, term2));
    }
    if variable(term2) {
        if occurs(term2, term1) {
            return Err(UnificationError::OccursCheckFailure {
                variable: String::from_str(term2),
                term: String::from_str(term1),
            });
        }
        return Ok(Substitution::single(term2, term1));
    }
    if !functional(term1) || !functional(term2) {
        return Err(UnificationError::ConstantOrEmptyMismatch {
            term1: String::from_str(term1),
            term2: String::from_str(term2),
        });
    }

    let ParserOutput { head: term1_head, tail: term1_tail } =
        parse_head_and_tail_of_functional_term(term1);
    let ParserOutput { head: term2_head, tail: term2_tail } =
        parse_head_and_tail_of_functional_term(term2);

    let mut subs1 = match unify_with_depth(term1_head.as_str(), term2_head.as_str(), depth - 1) {
        Ok(s) => s,
        Err(e) => {
            return Err(e);
        },
    };

    let term1_tail_with_subs = apply(&subs1, term1_tail.as_str());
    let term2_tail_with_subs = apply(&subs1, term2_tail.as_str());

    let subs2 = match unify_with_depth(
        term1_tail_with_subs.as_str(),
        term2_tail_with_subs.as_str(),
        depth - 1,
    ) {
        Ok(s) => s,
        Err(e) => {
            return Err(e);
        },
    };

    subs1.compose(&subs2);
    Ok(subs1)
}

/// The recursion-depth bound behind the default entry point. Far deeper
/// than any term pair the generator can materialize in memory, yet it makes
/// exhaustion an observable error instead of a crashed stack.
pub const UNIFY_DEPTH_LIMIT: u64 = 0xFFFF_FFFF;

/// Entry point to the unification algorithm: returns the most general
/// substitution making the two terms identical, or the typed failure.
/// Identical terms always succeed with the empty substitution.
pub fn unify(term1: &str, term2: &str) -> (res: Result<Substitution, UnificationError>)
    ensures
        result_matches_model(res, unify_model(term1@, term2@, UNIFY_DEPTH_LIMIT as nat)),
        term1@ == term2@ ==> (res matches Ok(s) && s@ == Seq::<(Seq<char>, Seq<char>)>::empty()),
{
    unify_with_depth(term1, term2, UNIFY_DEPTH_LIMIT)
}

/// Unifying any term with itself succeeds with the empty substitution.
pub proof fn law_identical_terms(t: Seq<char>, depth: nat)
    requires
        depth >= 1,
    ensures
        unify_model(t, t, depth) == UnifyModel::Success(Seq::<(Seq<char>, Seq<char>)>::empty()),
{
}

/// Unifying a variable with a non-variable, non-constant, non-empty term
/// that does not contain it succeeds from either side, with the same
/// single-binding substitution. (With a constant on the other side both
/// directions instead fail as a constant mismatch.)
pub proof fn law_variable_binding_symmetric(v: Seq<char>, t: Seq<char>, depth: nat)
    requires
        depth >= 1,
        is_variable_name(v),
        !is_variable_name(t),
        !is_constant_name(t),
        !is_empty_term(t),
        !token_occurs(v, t),
    ensures
        unify_model(v, t, depth) == UnifyModel::Success(seq![(v, t)]),
        unify_model(t, v, depth) == UnifyModel::Success(seq![(v, t)]),
{
    assert(v != t);
}

/// A whole-token occurrence of one variable inside another makes the two
/// names equal: a variable name consists of word characters only, so a
/// token can neither start nor end strictly inside it.
pub proof fn lemma_no_token_in_other_variable(v: Seq<char>, w: Seq<char>)
    requires
        is_variable_name(v),
        is_variable_name(w),
        v != w,
    ensures
        !token_occurs(v, w),
{
    assert forall|i: int| !token_at(w, v, i) by {
        if token_at(w, v, i) {
            if i > 0 {
                assert(crate::text::is_word_char(w[i - 1]));
            }
            if i + v.len() < w.len() {
                assert(crate::text::is_word_char(w[i + v.len()]));
            }
            assert(i == 0 && i + v.len() == w.len());
            assert(w.subrange(0, w.len() as int) =~= w);
        }
    }
}

/// Unifying two distinct variables binds the left one to the right one:
/// both directions succeed with mirrored single-binding substitutions.
pub proof fn law_two_variables(v: Seq<char>, w: Seq<char>, depth: nat)
    requires
        depth >= 1,
        is_variable_name(v),
        is_variable_name(w),
        v != w,
    ensures
        unify_model(v, w, depth) == UnifyModel::Success(seq![(v, w)]),
        unify_model(w, v, depth) == UnifyModel::Success(seq![(w, v)]),
{
    lemma_no_token_in_other_variable(v, w);
    lemma_no_token_in_other_variable(w, v);
}

/// Binding a variable to a term that contains it as a whole token fails
/// the occurs check, whatever the depth bound still allows.
pub proof fn law_occurs_check(v: Seq<char>, t: Seq<char>, depth: nat)
    requires
        depth >= 1,
        is_variable_name(v),
        !is_constant_name(t),
        !is_empty_term(t),
        v != t,
        token_occurs(v, t),
    ensures
        unify_model(v, t, depth) == UnifyModel::OccursCheckFailure(v, t),
{
}

/// Two distinct constants clash; equal constants unify trivially.
pub proof fn law_constant_clash(a: Seq<char>, b: Seq<char>, depth: nat)
    requires
        depth >= 1,
        is_constant_name(a),
        is_constant_name(b),
    ensures
        a != b ==> unify_model(a, b, depth) == UnifyModel::ConstantOrEmptyMismatch(a, b),
        a == b ==> unify_model(a, b, depth) == UnifyModel::Success(
            Seq::<(Seq<char>, Seq<char>)>::empty(),
        ),
{
}

} // verus!
