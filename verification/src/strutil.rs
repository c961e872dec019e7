//! Small verified string helpers: building strings from character
//! sequences, decimal rendering, equality, trimming and repetition.

use vstd::prelude::*;

use crate::line::spec_is_whitespace;

verus! {

/// Relies on std's `FromIterator<char> for String`: collecting characters
/// yields the string of exactly those characters in order.
#[verifier::external_body]
pub fn chars_to_string(v: Vec<char>) -> (r: String)
    ensures
        r@ == v@,
{
    v.into_iter().collect()
}

/// The decimal digit character for a value below ten.
pub open spec fn dec_digit(d: int) -> char {
    if d == 0 {
        '0'
    } else if d == 1 {
        '1'
    } else if d == 2 {
        '2'
    } else if d == 3 {
        '3'
    } else if d == 4 {
        '4'
    } else if d == 5 {
        '5'
    } else if d == 6 {
        '6'
    } else if d == 7 {
        '7'
    } else if d == 8 {
        '8'
    } else {
        '9'
    }
}

/// The decimal digits of a number, most significant first.
pub open spec fn dec_seq(n: int) -> Seq<char>
    decreases n,
{
    if n < 10 {
        seq![dec_digit(n)]
    } else {
        dec_seq(n / 10).push(dec_digit(n % 10))
    }
}

fn dec_digit_char(d: u64) -> (c: char)
    requires
        d < 10,
    ensures
        c == dec_digit(d as int),
{
    match d {
        0 => '0',
        1 => '1',
        2 => '2',
        3 => '3',
        4 => '4',
        5 => '5',
        6 => '6',
        7 => '7',
        8 => '8',
        _ => '9',
    }
}

/// The decimal digit characters of `n`, most significant first.
pub fn u64_to_dec(n: u64) -> (v: Vec<char>)
    ensures
        v@ == dec_seq(n as int),
    decreases n,
{
    if n < 10 {
        let mut v: Vec<char> = Vec::new();
        v.push(dec_digit_char(n));
        proof {
            assert(v@ =~= dec_seq(n as int));
        }
        v
    } else {
        proof {
            assert(n as int / 10 < n as int) by (nonlinear_arith)
                requires
                    n >= 10,
            ;
        }
        let mut v = u64_to_dec(n / 10);
        v.push(dec_digit_char(n % 10));
        v
    }
}

/// The decimal rendering of `n` as a string.
pub fn u64_to_string(n: u64) -> (r: String)
    ensures
        r@ == dec_seq(n as int),
{
    chars_to_string(u64_to_dec(n))
}

/// Whether two string slices hold the same characters.
pub fn str_eq(a: &str, b: &str) -> (r: bool)
    ensures
        r == (a@ == b@),
{
    let na = a.unicode_len();
    let nb = b.unicode_len();
    if na != nb {
        proof {
            assert(a@ != b@);
        }
        return false;
    }
    let mut i: usize = 0;
    while i < na
        invariant
            0 <= i <= na,
            na == a@.len(),
            na == b@.len(),
            forall|j: int| 0 <= j < i ==> a@[j] == b@[j],
        decreases na - i,
    {
        if a.get_char(i) != b.get_char(i) {
            proof {
                assert(a@[i as int] != b@[i as int]);
            }
            return false;
        }
        i = i + 1;
    }
    proof {
        assert(a@ =~= b@);
    }
    true
}

/// `count` copies of one character.
pub fn repeat_char(c: char, count: usize) -> (r: String)
    ensures
        r@ == Seq::new(count as nat, |i: int| c),
{
    let mut v: Vec<char> = Vec::new();
    let mut i: usize = 0;
    while i < count
        invariant
            0 <= i <= count,
            v@ =~= Seq::new(i as nat, |k: int| c),
        decreases count - i,
    {
        v.push(c);
        proof {
            assert(v@ =~= Seq::new((i + 1) as nat, |k: int| c));
        }
        i = i + 1;
    }
    chars_to_string(v)
}

/// The first position at or after `i` holding a non-whitespace character,
/// or the length if none.
pub open spec fn first_non_ws_from(s: Seq<char>, i: int) -> int
    decreases s.len() - i,
{
    if i < 0 || i >= s.len() {
        s.len() as int
    } else if !spec_is_whitespace(s[i]) {
        i
    } else {
        first_non_ws_from(s, i + 1)
    }
}

/// The position just after the last non-whitespace character strictly
/// before `i`, or zero if none.
pub open spec fn end_non_ws_before(s: Seq<char>, i: int) -> int
    decreases i,
{
    if i <= 0 {
        0
    } else if !spec_is_whitespace(s[i - 1]) {
        i
    } else {
        end_non_ws_before(s, i - 1)
    }
}

/// A string with its leading and trailing whitespace removed.
pub open spec fn spec_trim(s: Seq<char>) -> Seq<char> {
    let a = first_non_ws_from(s, 0);
    let e = end_non_ws_before(s, s.len() as int);
    if a >= e {
        Seq::empty()
    } else {
        s.subrange(a, e)
    }
}

/// Remove leading and trailing whitespace.
pub fn trim_str(s: &str) -> (r: String)
    ensures
        r@ == spec_trim(s@),
{
    let n = s.unicode_len();
    let mut a: usize = 0;
    while a < n && crate::line::is_whitespace_char(s.get_char(a))
        invariant
            0 <= a <= n,
            n == s@.len(),
            first_non_ws_from(s@, 0) == first_non_ws_from(s@, a as int),
        decreases n - a,
    {
        a = a + 1;
    }
    let mut e: usize = n;
    while e > 0 && crate::line::is_whitespace_char(s.get_char(e - 1))
        invariant
            0 <= e <= n,
            n == s@.len(),
            end_non_ws_before(s@, n as int) == end_non_ws_before(s@, e as int),
        decreases e,
    {
        e = e - 1;
    }
    proof {
        assert(first_non_ws_from(s@, a as int) == a as int || first_non_ws_from(s@, a as int)
            == s@.len());
        assert(end_non_ws_before(s@, e as int) == e as int || end_non_ws_before(s@, e as int)
            == 0);
    }
    if a >= e {
        proof {
            lemma_first_non_ws_bounds(s@, 0);
            lemma_end_non_ws_bounds(s@, s@.len() as int);
        }
        String::new()
    } else {
        let t = s.substring_char(a, e);
        String::from_str(t)
    }
}

/// `first_non_ws_from` never moves backwards and stays within bounds.
proof fn lemma_first_non_ws_bounds(s: Seq<char>, i: int)
    requires
        0 <= i <= s.len(),
    ensures
        i <= first_non_ws_from(s, i) <= s.len(),
    decreases s.len() - i,
{
    if i < s.len() && spec_is_whitespace(s[i]) {
        lemma_first_non_ws_bounds(s, i + 1);
    }
}

/// `end_non_ws_before` never moves forwards and stays within bounds.
proof fn lemma_end_non_ws_bounds(s: Seq<char>, i: int)
    requires
        0 <= i <= s.len(),
    ensures
        0 <= end_non_ws_before(s, i) <= i,
    decreases i,
{
    if i > 0 && spec_is_whitespace(s[i - 1]) {
        lemma_end_non_ws_bounds(s, i - 1);
    }
}

} // verus!
