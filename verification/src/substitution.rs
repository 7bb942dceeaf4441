//! The substitution engine: a finite mapping from variable names to terms,
//! kept in insertion order, with sequential application and right-biased
//! composition.

use vstd::prelude::*;

use crate::entities::Term;
use crate::term_model::is_variable_name;
use crate::text::{push_char, replace_from, replace_token, str_eq, match_here, word_char};

verus! {

/// Every key is a variable name and no key repeats.
pub open spec fn wf_bindings(bs: Seq<(Seq<char>, Seq<char>)>) -> bool {
    &&& forall|i: int| 0 <= i < bs.len() ==> is_variable_name(#[trigger] bs[i].0)
    &&& forall|i: int, j: int| 0 <= i < j < bs.len() ==> bs[i].0 != bs[j].0
}

/// The position of the binding for `key`, or -1 if there is none.
pub open spec fn find_key(bs: Seq<(Seq<char>, Seq<char>)>, key: Seq<char>) -> int
    decreases bs.len(),
{
    if bs.len() == 0 {
        -1
    } else if bs[0].0 == key {
        0
    } else {
        let r = find_key(bs.skip(1), key);
        if r == -1 {
            -1
        } else {
            r + 1
        }
    }
}

/// `find_key` names the first binding whose key matches, and -1 only when
/// none does.
pub proof fn lemma_find_key_at(bs: Seq<(Seq<char>, Seq<char>)>, key: Seq<char>, i: int)
    requires
        0 <= i <= bs.len(),
        forall|j: int| 0 <= j < i ==> (#[trigger] bs[j]).0 != key,
        i == bs.len() || bs[i].0 == key,
    ensures
        i == bs.len() ==> find_key(bs, key) == -1,
        i < bs.len() ==> find_key(bs, key) == i,
    decreases bs.len(),
{
    if bs.len() == 0 {
    } else if bs[0].0 == key {
        assert(i == 0);
    } else {
        assert(bs[0].0 != key);
        assert(i >= 1);
        let tail = bs.skip(1);
        assert(forall|j: int| 0 <= j < i - 1 ==> (#[trigger] tail[j]).0 == bs[j + 1].0);
        lemma_find_key_at(tail, key, i - 1);
    }
}

/// The bindings of `a` with `(key, value)` merged in: a present key keeps
/// its position and takes the new value, a new key is appended.
pub open spec fn upsert(
    a: Seq<(Seq<char>, Seq<char>)>,
    key: Seq<char>,
    value: Seq<char>,
) -> Seq<(Seq<char>, Seq<char>)> {
    let i = find_key(a, key);
    if i == -1 {
        a.push((key, value))
    } else {
        a.update(i, (key, value))
    }
}

/// Right-biased union of two binding lists: all bindings of `a`, then every
/// binding of `b` merged in, in order; where both bind the same variable,
/// `b`'s binding wins.
pub open spec fn compose_bindings(
    a: Seq<(Seq<char>, Seq<char>)>,
    b: Seq<(Seq<char>, Seq<char>)>,
) -> Seq<(Seq<char>, Seq<char>)>
    decreases b.len(),
{
    if b.len() == 0 {
        a
    } else {
        compose_bindings(upsert(a, b[0].0, b[0].1), b.skip(1))
    }
}

/// The term rewritten by each binding in turn, first binding first: every
/// whole-token occurrence of the bound variable is replaced by its term
/// before the next binding is applied.
pub open spec fn apply_bindings(bs: Seq<(Seq<char>, Seq<char>)>, t: Seq<char>) -> Seq<char>
    decreases bs.len(),
{
    if bs.len() == 0 {
        t
    } else {
        apply_bindings(bs.skip(1), replace_token(bs[0].0, bs[0].1, t))
    }
}

/// A finite mapping from variable names to terms. Bindings keep their
/// insertion order, and a multi-binding substitution is applied
/// sequentially in that order, not simultaneously.
#[derive(Debug)]
pub struct Substitution {
    bindings: Vec<(Term, Term)>,
}

impl View for Substitution {
    type V = Seq<(Seq<char>, Seq<char>)>;

    closed spec fn view(&self) -> Seq<(Seq<char>, Seq<char>)> {
        self.bindings@.map_values(|b: (Term, Term)| (b.0@, b.1@))
    }
}

impl Substitution {
    /// Well-formed: every key is a variable name and no key repeats.
    pub open spec fn wf(&self) -> bool {
        wf_bindings(self@)
    }

    /// The empty substitution, as returned by the trivial-equality case of
    /// unification.
    pub fn new() -> (s: Substitution)
        ensures
            s@ == Seq::<(Seq<char>, Seq<char>)>::empty(),
            s.wf(),
    {
        let s = Substitution { bindings: Vec::new() };
        proof {
            assert(s@ =~= Seq::<(Seq<char>, Seq<char>)>::empty());
        }
        s
    }

    /// The substitution with the one binding `{ key -> value }`.
    pub fn single(key: &str, value: &str) -> (s: Substitution)
        requires
            is_variable_name(key@),
        ensures
            s@ == seq![(key@, value@)],
            s.wf(),
    {
        let mut bindings: Vec<(Term, Term)> = Vec::new();
        bindings.push((String::from_str(key), String::from_str(value)));
        let s = Substitution { bindings };
        proof {
            assert(s@ =~= seq![(key@, value@)]);
        }
        s
    }

    /// The number of bindings.
    pub fn len(&self) -> (n: usize)
        ensures
            n == self@.len(),
    {
        self.bindings.len()
    }

    /// The variable name of the binding at the given position.
    pub fn key_at(&self, i: usize) -> (r: &Term)
        requires
            i < self@.len(),
        ensures
            r@ == self@[i as int].0,
    {
        &self.bindings[i].0
    }

    /// The bound term of the binding at the given position.
    pub fn value_at(&self, i: usize) -> (r: &Term)
        requires
            i < self@.len(),
        ensures
            r@ == self@[i as int].1,
    {
        &self.bindings[i].1
    }

    /// The position of the binding for the given variable name, if any.
    fn position_of(&self, key: &str) -> (r: Option<usize>)
        ensures
            match r {
                Some(i) => {
                    &&& i < self@.len()
                    &&& self@[i as int].0 == key@
                    &&& find_key(self@, key@) == i
                    &&& forall|j: int| 0 <= j < i ==> (#[trigger] self@[j]).0 != key@
                },
                None => {
                    &&& find_key(self@, key@) == -1
                    &&& forall|j: int|
                        0 <= j < self@.len() ==> (#[trigger] self@[j]).0 != key@
                },
            },
    {
        let n = self.bindings.len();
        let mut i: usize = 0;
        while i < n
            invariant
                0 <= i <= n,
                n == self@.len(),
                n == self.bindings@.len(),
                forall|j: int| 0 <= j < i ==> (#[trigger] self@[j]).0 != key@,
            decreases n - i,
        {
            if str_eq(self.bindings[i].0.as_str(), key) {
                proof {
                    lemma_find_key_at(self@, key@, i as int);
                }
                return Some(i);
            }
            i += 1;
        }
        proof {
            lemma_find_key_at(self@, key@, n as int);
        }
        None
    }

    /// Looks up the term bound to the given variable name.
    pub fn get(&self, key: &str) -> (r: Option<&Term>)
        ensures
            match r {
                Some(v) => {
                    &&& find_key(self@, key@) >= 0
                    &&& self@[find_key(self@, key@)].1 == v@
                },
                None => find_key(self@, key@) == -1,
            },
    {
        match self.position_of(key) {
            Some(i) => Some(&self.bindings[i].1),
            None => None,
        }
    }

    /// Merges the other substitution into this one: a right-biased union in
    /// which the other's binding wins where both bind the same variable, and
    /// a rebinding keeps its original position.
    pub fn compose(&mut self, other: &Substitution)
        requires
            old(self).wf(),
            other.wf(),
        ensures
            final(self)@ == compose_bindings(old(self)@, other@),
            final(self).wf(),
    {
        let n = other.bindings.len();
        let mut b: usize = 0;
        proof {
            assert(other@.skip(0) =~= other@);
        }
        while b < n
            invariant
                0 <= b <= n,
                n == other@.len(),
                n == other.bindings@.len(),
                other.wf(),
                self.wf(),
                compose_bindings(self@, other@.skip(b as int)) == compose_bindings(
                    old(self)@,
                    other@,
                ),
            decreases n - b,
        {
            let ghost pre = self@;
            let key = other.bindings[b].0.clone();
            let value = other.bindings[b].1.clone();
            proof {
                assert(other@[b as int] == (other.bindings@[b as int].0@, other.bindings@[
                    b as int].1@));
            }
            match self.position_of(key.as_str()) {
                Some(i) => {
                    self.bindings.remove(i);
                    self.bindings.insert(i, (key, value));
                    proof {
                        assert(self@ =~= pre.update(i as int, (
                            other@[b as int].0,
                            other@[b as int].1,
                        )));
                        assert(self@ == upsert(pre, other@[b as int].0, other@[b as int].1));
                        assert forall|k: int| 0 <= k < self@.len() implies (#[trigger] self@[
                            k]).0 == pre[k].0 by {}
                        assert(self.wf());
                    }
                },
                None => {
                    self.bindings.push((key, value));
                    proof {
                        assert(self@ =~= pre.push((other@[b as int].0, other@[b as int].1)));
                        assert(self@ == upsert(pre, other@[b as int].0, other@[b as int].1));
                        assert(is_variable_name(other@[b as int].0));
                        assert(self.wf());
                    }
                },
            }
            proof {
                assert(other@.skip(b as int).skip(1) =~= other@.skip(b + 1));
                assert(other@.skip(b as int)[0] == other@[b as int]);
            }
            b += 1;
        }
        proof {
            assert(other@.skip(n as int) =~= Seq::<(Seq<char>, Seq<char>)>::empty());
        }
    }
}

/// Checks whether the characters of `key` stand at position `i` of `s`.
pub(crate) fn chars_at(s: &str, i: usize, key: &str) -> (r: bool)
    requires
        i + key@.len() <= s@.len(),
    ensures
        r == (s@.subrange(i as int, i + key@.len()) == key@),
{
    let n = s.unicode_len();
    let k = key.unicode_len();
    let mut j: usize = 0;
    while j < k
        invariant
            0 <= j <= k,
            k == key@.len(),
            n == s@.len(),
            i + k <= n,
            forall|jj: int| 0 <= jj < j ==> s@[i + jj] == key@[jj],
        decreases k - j,
    {
        if s.get_char(i + j) != key.get_char(j) {
            proof {
                assert(s@.subrange(i as int, i + key@.len())[j as int] == s@[i + j]);
            }
            return false;
        }
        j += 1;
    }
    proof {
        assert(s@.subrange(i as int, i + key@.len()) =~= key@);
    }
    true
}

/// Replaces every whole-token occurrence of `key` in `term` by `value`,
/// scanning left to right.
fn replace_one(key: &str, value: &str, term: &str) -> (r: String)
    requires
        key@.len() >= 1,
    ensures
        r@ == replace_token(key@, value@, term@),
{
    let n = term.unicode_len();
    let k = key.unicode_len();
    let mut out = String::new();
    let mut left_ok: bool = true;
    let mut i: usize = 0;
    proof {
        assert(term@.skip(0) =~= term@);
        assert(out@ + replace_from(key@, value@, term@, true) =~= replace_from(
            key@,
            value@,
            term@,
            true,
        ));
    }
    while i < n
        invariant
            0 <= i <= n,
            n == term@.len(),
            k == key@.len(),
            1 <= k,
            replace_token(key@, value@, term@) == out@ + replace_from(
                key@,
                value@,
                term@.skip(i as int),
                left_ok,
            ),
        decreases n - i,
    {
        let ghost rem = term@.skip(i as int);
        proof {
            assert(rem.len() == n - i);
            if k <= n - i {
                assert(rem.take(k as int) =~= term@.subrange(i as int, i + k));
                if i + k < n {
                    assert(rem[k as int] == term@[i + k]);
                }
            }
        }
        let is_match = left_ok && k <= n - i && chars_at(term, i, key) && (i + k == n
            || !word_char(term.get_char(i + k)));
        let ghost pre_out = out@;
        if is_match {
            proof {
                assert(match_here(rem, key@, left_ok));
            }
            out.append(value);
            let last = key.get_char(k - 1);
            left_ok = !word_char(last);
            proof {
                assert(rem.skip(k as int) =~= term@.skip(i + k));
                assert(pre_out + (value@ + replace_from(
                    key@,
                    value@,
                    term@.skip(i + k),
                    left_ok,
                )) =~= (pre_out + value@) + replace_from(key@, value@, term@.skip(i + k), left_ok));
            }
            i += k;
        } else {
            proof {
                assert(!match_here(rem, key@, left_ok));
            }
            let c = term.get_char(i);
            push_char(&mut out, c);
            left_ok = !word_char(c);
            proof {
                assert(rem[0] == term@[i as int]);
                assert(rem.skip(1) =~= term@.skip(i + 1));
                assert(pre_out + (seq![term@[i as int]] + replace_from(
                    key@,
                    value@,
                    term@.skip(i + 1),
                    left_ok,
                )) =~= pre_out.push(term@[i as int]) + replace_from(
                    key@,
                    value@,
                    term@.skip(i + 1),
                    left_ok,
                ));
            }
            i += 1;
        }
    }
    proof {
        assert(term@.skip(n as int) =~= Seq::<char>::empty());
        assert(out@ + Seq::<char>::empty() =~= out@);
    }
    out
}

/// Replaces all occurrences of the keys of the given substitution with the
/// corresponding values in the given term, binding by binding in insertion
/// order.
pub fn apply(substitution: &Substitution, term: &str) -> (r: Term)
    requires
        substitution.wf(),
    ensures
        r@ == apply_bindings(substitution@, term@),
{
    let mut result = String::from_str(term);
    let len = substitution.len();
    let mut b: usize = 0;
    proof {
        assert(substitution@.skip(0) =~= substitution@);
    }
    while b < len
        invariant
            0 <= b <= len,
            len == substitution@.len(),
            substitution.wf(),
            apply_bindings(substitution@, term@) == apply_bindings(
                substitution@.skip(b as int),
                result@,
            ),
        decreases len - b,
    {
        let key = substitution.key_at(b);
        let value = substitution.value_at(b);
        proof {
            assert(is_variable_name(substitution@[b as int].0));
        }
        let rewritten = replace_one(key.as_str(), value.as_str(), result.as_str());
        result = rewritten;
        proof {
            assert(substitution@.skip(b as int)[0] == substitution@[b as int]);
            assert(substitution@.skip(b as int).skip(1) =~= substitution@.skip(b + 1));
        }
        b += 1;
    }
    proof {
        assert(substitution@.skip(len as int) =~= Seq::<(Seq<char>, Seq<char>)>::empty());
    }
    result
}

} // verus!
