//! Deterministic generator of the classical pathological term pair: unifying
//! the two generated terms forces each variable to bind to a term whose size
//! roughly doubles per step, so the unifier's total size grows exponentially
//! in the parameter while the inputs grow only linearly.

use vstd::prelude::*;

use crate::entities::{HTermsGeneratorParam, Term, UnificationError};
use crate::text::{dec_str, join_args, lemma_join_args_push, push_char, push_dec};

verus! {

/// The generated pair of terms.
pub type TermsPair = (Term, Term);

/// The variable named by one letter and a decimal index, `x1` or `y0`.
pub open spec fn var_name(letter: char, i: nat) -> Seq<char> {
    seq![letter] + dec_str(i)
}

/// The doubled application `f(v, v)` of one variable.
pub open spec fn f_pair(v: Seq<char>) -> Seq<char> {
    seq!['f', '('] + v + seq![',', ' '] + v + seq![')']
}

/// The variables `<letter>1, ..., <letter>n`, in order.
pub open spec fn var_list(letter: char, n: nat) -> Seq<Seq<char>> {
    Seq::new(n, |i: int| var_name(letter, (i + 1) as nat))
}

/// The terms `f(<letter>0, <letter>0), ..., f(<letter>{n-1}, <letter>{n-1})`.
pub open spec fn f_list(letter: char, n: nat) -> Seq<Seq<char>> {
    Seq::new(n, |i: int| f_pair(var_name(letter, i as nat)))
}

/// The first benchmark term, `h(x1, ..., xn, f(y0, y0), ..., f(y_{n-1}, y_{n-1}), yn)`.
pub open spec fn gen_term1(n: nat) -> Seq<char> {
    seq!['h', '('] + join_args(var_list('x', n)) + seq![',', ' '] + join_args(f_list('y', n))
        + seq![',', ' '] + var_name('y', n) + seq![')']
}

/// The second benchmark term, `h(f(x0, x0), ..., f(x_{n-1}, x_{n-1}), y1, ..., yn, xn)`.
pub open spec fn gen_term2(n: nat) -> Seq<char> {
    seq!['h', '('] + join_args(f_list('x', n)) + seq![',', ' '] + join_args(var_list('y', n))
        + seq![',', ' '] + var_name('x', n) + seq![')']
}

/// Appends the variable `<letter><i>`.
fn push_var(out: &mut String, letter: char, i: u64)
    ensures
        final(out)@ == old(out)@ + var_name(letter, i as nat),
{
    push_char(out, letter);
    push_dec(out, i);
    proof {
        assert(old(out)@.push(letter) + dec_str(i as nat) =~= old(out)@ + var_name(
            letter,
            i as nat,
        ));
    }
}

/// Appends the term `f(<letter><i>, <letter><i>)`.
fn push_f_pair(out: &mut String, letter: char, i: u64)
    ensures
        final(out)@ == old(out)@ + f_pair(var_name(letter, i as nat)),
{
    out.append("f(");
    push_var(out, letter, i);
    out.append(", ");
    push_var(out, letter, i);
    out.append(")");
    proof {
        reveal_strlit("f(");
        reveal_strlit(", ");
        reveal_strlit(")");
        assert(out@ =~= old(out)@ + f_pair(var_name(letter, i as nat)));
    }
}

/// Appends the joined list `<letter>1, ..., <letter>n`.
fn push_var_list(out: &mut String, letter: char, n: u64)
    requires
        n >= 1,
    ensures
        final(out)@ == old(out)@ + join_args(var_list(letter, n as nat)),
{
    push_var(out, letter, 1);
    proof {
        assert(var_list(letter, 1nat) =~= seq![var_name(letter, 1nat)]);
    }
    let mut i: u64 = 1;
    while i < n
        invariant
            1 <= i <= n,
            out@ == old(out)@ + join_args(var_list(letter, i as nat)),
        decreases n - i,
    {
        let ghost pre = out@;
        out.append(", ");
        push_var(out, letter, i + 1);
        proof {
            reveal_strlit(", ");
            assert(var_list(letter, (i + 1) as nat) =~= var_list(letter, i as nat).push(
                var_name(letter, (i + 1) as nat),
            ));
            lemma_join_args_push(var_list(letter, i as nat), var_name(letter, (i + 1) as nat));
            assert(out@ =~= old(out)@ + join_args(var_list(letter, (i + 1) as nat)));
        }
        i += 1;
    }
}

/// Appends the joined list `f(<letter>0, <letter>0), ..., f(<letter>{n-1}, <letter>{n-1})`.
fn push_f_list(out: &mut String, letter: char, n: u64)
    requires
        n >= 1,
    ensures
        final(out)@ == old(out)@ + join_args(f_list(letter, n as nat)),
{
    push_f_pair(out, letter, 0);
    proof {
        assert(f_list(letter, 1nat) =~= seq![f_pair(var_name(letter, 0nat))]);
    }
    let mut i: u64 = 1;
    while i < n
        invariant
            1 <= i <= n,
            out@ == old(out)@ + join_args(f_list(letter, i as nat)),
        decreases n - i,
    {
        out.append(", ");
        push_f_pair(out, letter, i);
        proof {
            reveal_strlit(", ");
            assert(f_list(letter, (i + 1) as nat) =~= f_list(letter, i as nat).push(
                f_pair(var_name(letter, i as nat)),
            ));
            lemma_join_args_push(f_list(letter, i as nat), f_pair(var_name(letter, i as nat)));
            assert(out@ =~= old(out)@ + join_args(f_list(letter, (i + 1) as nat)));
        }
        i += 1;
    }
}

/// Builds the pathological pair for the given size. A size below 1 is a
/// precondition failure, signalled before any work is attempted.
pub fn generate_h_terms(n: HTermsGeneratorParam) -> (res: Result<TermsPair, UnificationError>)
    ensures
        n < 1 ==> (res matches Err(e) && e is InvalidGeneratorParameter),
        n >= 1 ==> (res matches Ok(p) && p.0@ == gen_term1(n as nat) && p.1@ == gen_term2(
            n as nat,
        )),
{
    if n < 1 {
        return Err(UnificationError::InvalidGeneratorParameter);
    }

    let mut term1 = String::from_str("h(");
    push_var_list(&mut term1, 'x', n);
    term1.append(", ");
    push_f_list(&mut term1, 'y', n);
    term1.append(", ");
    push_var(&mut term1, 'y', n);
    term1.append(")");
    proof {
        reveal_strlit("h(");
        reveal_strlit(", ");
        reveal_strlit(")");
        assert(term1@ =~= gen_term1(n as nat));
    }

    let mut term2 = String::from_str("h(");
    push_f_list(&mut term2, 'x', n);
    term2.append(", ");
    push_var_list(&mut term2, 'y', n);
    term2.append(", ");
    push_var(&mut term2, 'x', n);
    term2.append(")");
    proof {
        reveal_strlit("h(");
        reveal_strlit(", ");
        reveal_strlit(")");
        assert(term2@ =~= gen_term2(n as nat));
    }

    Ok((term1, term2))
}

} // verus!
