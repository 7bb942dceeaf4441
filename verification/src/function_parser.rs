//! Head/tail decomposition of a compound term. Splitting the argument text
//! at its top-level commas (a comma inside a nested compound is not a split
//! point) reduces n-ary unification to repeated binary unification: the
//! first argument becomes the head, the remaining arguments are wrapped
//! under the reserved rest functor `d`, which no generated term uses.

use vstd::prelude::*;

use crate::entities::Term;
use crate::term_model::is_functional_shape;
use crate::text::{join_args, lemma_join_args_push, push_char, trim, trim_str};

verus! {

/// The left-to-right scan that splits an argument text at its top-level
/// commas: `depth` is the parenthesis nesting so far, `cur` the argument
/// read so far, `acc` the arguments already split off (each trimmed).
pub open spec fn scan_args(s: Seq<char>, depth: int, cur: Seq<char>, acc: Seq<Seq<char>>) -> Seq<
    Seq<char>,
>
    decreases s.len(),
{
    if s.len() == 0 {
        if cur.len() == 0 {
            acc
        } else {
            acc.push(trim(cur))
        }
    } else if s[0] == ',' && depth == 0 {
        scan_args(s.skip(1), depth, Seq::empty(), acc.push(trim(cur)))
    } else {
        let d = if s[0] == '(' {
            depth + 1
        } else if s[0] == ')' {
            depth - 1
        } else {
            depth
        };
        scan_args(s.skip(1), d, cur.push(s[0]), acc)
    }
}

/// The top-level arguments of the text between a compound's parentheses,
/// each trimmed of surrounding whitespace.
pub open spec fn split_top_args(inner: Seq<char>) -> Seq<Seq<char>> {
    scan_args(inner, 0, Seq::empty(), Seq::empty())
}

/// The text between a compound's opening parenthesis and its final one.
pub open spec fn inner_of(s: Seq<char>) -> Seq<char> {
    s.subrange(2, s.len() - 1)
}

/// The head of a decomposition: the first argument, or the empty sentinel
/// if the argument list is exhausted.
pub open spec fn head_of(args: Seq<Seq<char>>) -> Seq<char> {
    if args.len() == 0 {
        Seq::empty()
    } else {
        args[0]
    }
}

/// The tail of a decomposition: the remaining arguments wrapped under the
/// reserved rest functor.
pub open spec fn tail_of(args: Seq<Seq<char>>) -> Seq<char> {
    if args.len() <= 1 {
        seq!['d', '(', ')']
    } else {
        seq!['d', '('] + join_args(args.skip(1)) + seq![')']
    }
}

/// The head and tail of one decomposition step.
pub struct ParserOutput {
    pub head: Term,
    pub tail: Term,
}

/// Splits a compound term `functor(arg_0, ..., arg_{k-1})` into its first
/// argument and the rest-term `d(arg_1, ..., arg_{k-1})`, respecting nested
/// parentheses when looking for the separating commas.
pub fn parse_head_and_tail_of_functional_term(func: &str) -> (out: ParserOutput)
    requires
        is_functional_shape(func@),
    ensures
        out.head@ == head_of(split_top_args(inner_of(func@))),
        out.tail@ == tail_of(split_top_args(inner_of(func@))),
{
    let n = func.unicode_len();
    let arguments_str = func.substring_char(2, n - 1);
    let m = arguments_str.unicode_len();
    let ghost args = split_top_args(inner_of(func@));

    let mut parentheses_counter: i128 = 0;
    let mut arguments: Vec<String> = Vec::new();
    let mut current_argument = String::new();
    proof {
        assert(arguments_str@.skip(0) =~= arguments_str@);
        assert(arguments@.map_values(|a: String| a@) =~= Seq::<Seq<char>>::empty());
    }
    let mut i: usize = 0;
    while i < m
        invariant
            0 <= i <= m,
            m == arguments_str@.len(),
            -(i as int) <= parentheses_counter <= i as int,
            scan_args(
                arguments_str@.skip(i as int),
                parentheses_counter as int,
                current_argument@,
                arguments@.map_values(|a: String| a@),
            ) == args,
        decreases m - i,
    {
        let ghost pre_views = arguments@.map_values(|a: String| a@);
        let ghost pre_cur = current_argument@;
        let symbol = arguments_str.get_char(i);
        if symbol == ',' && parentheses_counter == 0 {
            let trimmed = trim_str(current_argument.as_str());
            arguments.push(trimmed);
            current_argument = String::new();
            proof {
                assert(arguments@.map_values(|a: String| a@) =~= pre_views.push(trim(pre_cur)));
            }
        } else {
            if symbol == '(' {
                parentheses_counter += 1;
            } else if symbol == ')' {
                parentheses_counter -= 1;
            }
            push_char(&mut current_argument, symbol);
        }
        proof {
            assert(arguments_str@.skip(i as int).skip(1) =~= arguments_str@.skip(i + 1));
        }
        i += 1;
    }
    if !current_argument.as_str().is_empty() {
        let ghost pre_views = arguments@.map_values(|a: String| a@);
        let trimmed = trim_str(current_argument.as_str());
        arguments.push(trimmed);
        proof {
            assert(arguments@.map_values(|a: String| a@) =~= pre_views.push(
                trim(current_argument@),
            ));
        }
    }
    proof {
        assert(arguments@.map_values(|a: String| a@) == args);
    }

    let args_len = arguments.len();
    let head = if args_len == 0 {
        String::new()
    } else {
        arguments[0].clone()
    };

    let mut tail = String::from_str("d(");
    proof {
        reveal_strlit("d(");
        assert(tail@ =~= seq!['d', '(']);
    }
    let mut j: usize = 1;
    while j < args_len
        invariant
            1 <= j,
            args_len == arguments@.len(),
            arguments@.map_values(|a: String| a@) == args,
            args_len >= 1 ==> j <= args_len,
            args_len == 0 ==> j == 1,
            j == 1 ==> tail@ == seq!['d', '('],
            j > 1 ==> tail@ == seq!['d', '('] + join_args(args.subrange(1, j as int)),
        decreases args_len - j,
    {
        let ghost pre_tail = tail@;
        if j > 1 {
            tail.append(", ");
            proof {
                reveal_strlit(", ");
            }
        }
        tail.append(arguments[j].as_str());
        proof {
            if j == 1 {
                assert(args.subrange(1, 2) =~= seq![args[1]]);
                assert(join_args(seq![args[1]]) == args[1]);
            } else {
                assert(args.subrange(1, j as int).push(args[j as int]) =~= args.subrange(
                    1,
                    j + 1,
                ));
                lemma_join_args_push(args.subrange(1, j as int), args[j as int]);
                assert(pre_tail + seq![',', ' '] + args[j as int] =~= seq!['d', '('] + join_args(
                    args.subrange(1, j + 1),
                ));
            }
            assert(tail@ =~= seq!['d', '('] + join_args(args.subrange(1, j + 1)));
        }
        j += 1;
    }
    tail.append(")");
    proof {
        reveal_strlit(")");
        if args_len <= 1 {
            assert(tail@ =~= seq!['d', '(', ')']);
        } else {
            assert(args.subrange(1, args_len as int) =~= args.skip(1));
            assert(tail@ =~= seq!['d', '('] + join_args(args.skip(1)) + seq![')']);
        }
    }
    ParserOutput { head, tail }
}

} // verus!
