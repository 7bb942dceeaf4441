//! Character classes and sequence-level text operations that the term
//! grammar, the decomposer and the substitution engine are specified with.

use vstd::prelude::*;

verus! {

/// An ASCII letter: the only character that may start a variable name or
/// stand alone as a constant.
pub open spec fn is_letter_char(c: char) -> bool {
    ('a' <= c && c <= 'z') || ('A' <= c && c <= 'Z')
}

/// An ASCII decimal digit.
pub open spec fn is_digit_char(c: char) -> bool {
    '0' <= c && c <= '9'
}

/// A word character for whole-token matching: what an identifier may
/// contain. A variable occurrence is a run of these delimited on both
/// sides by non-word characters (or the ends of the string).
pub open spec fn is_word_char(c: char) -> bool {
    is_letter_char(c) || is_digit_char(c) || c == '_'
}

/// ASCII whitespace, as stripped around an argument of a compound term.
pub open spec fn is_space_char(c: char) -> bool {
    c == ' ' || c == '\t' || c == '\n' || c == '\r'
}

pub fn letter_char(c: char) -> (r: bool)
    ensures
        r == is_letter_char(c),
{
    let u = c as u32;
    (('a' as u32) <= u && u <= ('z' as u32)) || (('A' as u32) <= u && u <= ('Z' as u32))
}

pub fn digit_char(c: char) -> (r: bool)
    ensures
        r == is_digit_char(c),
{
    let u = c as u32;
    ('0' as u32) <= u && u <= ('9' as u32)
}

pub fn word_char(c: char) -> (r: bool)
    ensures
        r == is_word_char(c),
{
    letter_char(c) || digit_char(c) || c == '_'
}

pub fn space_char(c: char) -> (r: bool)
    ensures
        r == is_space_char(c),
{
    c == ' ' || c == '\t' || c == '\n' || c == '\r'
}

/// Compares two strings character by character.
pub fn str_eq(a: &str, b: &str) -> (r: bool)
    ensures
        r == (a@ == b@),
{
    let n = a.unicode_len();
    if n != b.unicode_len() {
        return false;
    }
    let mut i: usize = 0;
    while i < n
        invariant
            0 <= i <= n,
            n == a@.len(),
            n == b@.len(),
            forall|j: int| 0 <= j < i ==> a@[j] == b@[j],
        decreases n - i,
    {
        if a.get_char(i) != b.get_char(i) {
            return false;
        }
        i += 1;
    }
    proof {
        assert(a@ =~= b@);
    }
    true
}

/// Relies on String::push: appends the given character at the end of the
/// string and changes nothing else.
#[verifier::external_body]
pub(crate) fn push_char(s: &mut String, c: char)
    ensures
        final(s)@ == old(s)@.push(c),
{
    s.push(c);
}

/// `s` with its leading whitespace removed.
pub open spec fn trim_start(s: Seq<char>) -> Seq<char>
    decreases s.len(),
{
    if s.len() > 0 && is_space_char(s[0]) {
        trim_start(s.skip(1))
    } else {
        s
    }
}

/// `s` with its trailing whitespace removed.
pub open spec fn trim_end(s: Seq<char>) -> Seq<char>
    decreases s.len(),
{
    if s.len() > 0 && is_space_char(s[s.len() - 1]) {
        trim_end(s.take(s.len() - 1))
    } else {
        s
    }
}

/// `s` with whitespace removed from both ends.
pub open spec fn trim(s: Seq<char>) -> Seq<char> {
    trim_end(trim_start(s))
}

/// Returns the term with whitespace removed from both ends.
pub fn trim_str(s: &str) -> (r: String)
    ensures
        r@ == trim(s@),
{
    let n = s.unicode_len();
    proof {
        assert(s@.skip(0) =~= s@);
    }
    let mut i: usize = 0;
    while i < n && space_char(s.get_char(i))
        invariant
            0 <= i <= n,
            n == s@.len(),
            trim_start(s@.skip(i as int)) == trim_start(s@),
        decreases n - i,
    {
        proof {
            assert(s@.skip(i as int).skip(1) =~= s@.skip(i + 1));
        }
        i += 1;
    }
    proof {
        assert(trim_start(s@.skip(i as int)) == s@.skip(i as int));
    }
    let mut j: usize = n;
    while j > i && space_char(s.get_char(j - 1))
        invariant
            i <= j <= n,
            n == s@.len(),
            trim_start(s@) == s@.skip(i as int),
            trim_end(s@.subrange(i as int, j as int)) == trim_end(s@.skip(i as int)),
        decreases j,
    {
        proof {
            assert(s@.subrange(i as int, j as int).take(j - i - 1) =~= s@.subrange(
                i as int,
                j - 1,
            ));
        }
        j -= 1;
    }
    proof {
        assert(trim_end(s@.subrange(i as int, j as int)) == s@.subrange(i as int, j as int));
    }
    let piece = s.substring_char(i, j);
    String::from_str(piece)
}

/// The given argument strings joined with a comma-and-space separator.
pub open spec fn join_args(parts: Seq<Seq<char>>) -> Seq<char>
    decreases parts.len(),
{
    if parts.len() == 0 {
        Seq::empty()
    } else if parts.len() == 1 {
        parts[0]
    } else {
        parts[0] + seq![',', ' '] + join_args(parts.skip(1))
    }
}

/// Appending one more part joins as the old text, a separator, and the part.
pub proof fn lemma_join_args_push(parts: Seq<Seq<char>>, last: Seq<char>)
    requires
        parts.len() >= 1,
    ensures
        join_args(parts.push(last)) == join_args(parts) + seq![',', ' '] + last,
    decreases parts.len(),
{
    if parts.len() == 1 {
        assert(parts.push(last).skip(1) =~= seq![last]);
        assert(join_args(seq![last]) == last);
        assert(join_args(parts.push(last)) =~= parts[0] + seq![',', ' '] + last);
        assert(join_args(parts) + seq![',', ' '] + last =~= parts[0] + seq![',', ' '] + last);
    } else {
        assert(parts.push(last).skip(1) =~= parts.skip(1).push(last));
        lemma_join_args_push(parts.skip(1), last);
        assert(join_args(parts.push(last)) =~= join_args(parts) + seq![',', ' '] + last);
    }
}

/// The decimal digit character for a value below ten.
pub open spec fn digit_of(d: nat) -> char {
    if d == 0 {
        '0'
    } else if d == 1 {
        '1'
    } else if d == 2 {
        '2'
    } else if d == 3 {
        '3'
    } else if d == 4 {
        '4'
    } else if d == 5 {
        '5'
    } else if d == 6 {
        '6'
    } else if d == 7 {
        '7'
    } else if d == 8 {
        '8'
    } else {
        '9'
    }
}

/// The decimal rendering of a natural number, most significant digit first,
/// without leading zeros (except for zero itself).
pub open spec fn dec_str(n: nat) -> Seq<char>
    decreases n,
{
    if n < 10 {
        seq![digit_of(n)]
    } else {
        dec_str(n / 10).push(digit_of(n % 10))
    }
}

fn digit_char_of(d: u64) -> (c: char)
    requires
        d < 10,
    ensures
        c == digit_of(d as nat),
{
    if d == 0 {
        '0'
    } else if d == 1 {
        '1'
    } else if d == 2 {
        '2'
    } else if d == 3 {
        '3'
    } else if d == 4 {
        '4'
    } else if d == 5 {
        '5'
    } else if d == 6 {
        '6'
    } else if d == 7 {
        '7'
    } else if d == 8 {
        '8'
    } else {
        '9'
    }
}

/// Appends the decimal rendering of `n` to the string.
pub fn push_dec(out: &mut String, n: u64)
    ensures
        final(out)@ == old(out)@ + dec_str(n as nat),
    decreases n,
{
    if n >= 10 {
        push_dec(out, n / 10);
        push_char(out, digit_char_of(n % 10));
        proof {
            assert(old(out)@ + dec_str((n / 10) as nat).push(digit_of((n % 10) as nat)) =~= (old(
                out,
            )@ + dec_str((n / 10) as nat)).push(digit_of((n % 10) as nat)));
        }
    } else {
        push_char(out, digit_char_of(n));
        proof {
            assert(old(out)@ + seq![digit_of(n as nat)] =~= old(out)@.push(digit_of(n as nat)));
        }
    }
}

/// `key` stands at position `i` of `s` as a whole token: the characters
/// match and no word character adjoins the occurrence on either side.
pub open spec fn token_at(s: Seq<char>, key: Seq<char>, i: int) -> bool {
    &&& 0 <= i
    &&& i + key.len() <= s.len()
    &&& s.subrange(i, i + key.len()) == key
    &&& (i == 0 || !is_word_char(s[i - 1]))
    &&& (i + key.len() == s.len() || !is_word_char(s[i + key.len()]))
}

/// `key` occurs somewhere in `s` as a whole token.
pub open spec fn token_occurs(key: Seq<char>, s: Seq<char>) -> bool {
    exists|i: int| token_at(s, key, i)
}

/// One step of the left-to-right replacement scan: `key` matches at the
/// front of the remaining text `s`, and the character just before `s` in the
/// full text allowed a token to start here (`left_ok`).
pub open spec fn match_here(s: Seq<char>, key: Seq<char>, left_ok: bool) -> bool {
    &&& left_ok
    &&& 1 <= key.len() <= s.len()
    &&& s.take(key.len() as int) == key
    &&& (key.len() == s.len() || !is_word_char(s[key.len() as int]))
}

/// Every whole-token occurrence of `key` in `s` replaced by `val`. The scan
/// runs left to right and continues after each replacement without
/// rescanning the inserted text; `left_ok` says whether a token may start at
/// the front of `s`.
pub open spec fn replace_from(key: Seq<char>, val: Seq<char>, s: Seq<char>, left_ok: bool) -> Seq<
    char,
>
    decreases s.len(),
{
    if s.len() == 0 {
        s
    } else if match_here(s, key, left_ok) {
        val + replace_from(key, val, s.skip(key.len() as int), !is_word_char(key[key.len() - 1]))
    } else {
        seq![s[0]] + replace_from(key, val, s.skip(1), !is_word_char(s[0]))
    }
}

/// Every whole-token occurrence of `key` in `s` replaced by `val`.
pub open spec fn replace_token(key: Seq<char>, val: Seq<char>, s: Seq<char>) -> Seq<char> {
    replace_from(key, val, s, true)
}

} // verus!
