//! Text helpers: decimal numerals, suffix tests and the split of a path at
//! its last dot.

use vstd::prelude::*;
use vstd::string::*;

verus! {

/// The character of a single decimal digit.
pub open spec fn digit_char(d: nat) -> char {
    if d == 0 {
        '0'
    } else if d == 1 {
        '1'
    } else if d == 2 {
        '2'
    } else if d == 3 {
        '3'
    } else if d == 4 {
        '4'
    } else if d == 5 {
        '5'
    } else if d == 6 {
        '6'
    } else if d == 7 {
        '7'
    } else if d == 8 {
        '8'
    } else {
        '9'
    }
}

/// The decimal numeral of `n`, most significant digit first, without
/// leading zeros.
pub open spec fn digits(n: nat) -> Seq<char>
    decreases n,
{
    if n < 10 {
        seq![digit_char(n)]
    } else {
        digits(n / 10).push(digit_char(n % 10))
    }
}

/// The number that a digit character stands for.
pub open spec fn digit_value(c: char) -> nat {
    if c == '1' {
        1
    } else if c == '2' {
        2
    } else if c == '3' {
        3
    } else if c == '4' {
        4
    } else if c == '5' {
        5
    } else if c == '6' {
        6
    } else if c == '7' {
        7
    } else if c == '8' {
        8
    } else if c == '9' {
        9
    } else {
        0
    }
}

/// The number that a numeral stands for: the inverse of `digits`.
pub open spec fn numeral_value(s: Seq<char>) -> nat
    decreases s.len(),
{
    if s.len() == 0 {
        0
    } else {
        numeral_value(s.drop_last()) * 10 + digit_value(s.last())
    }
}

/// Reading a numeral back gives the number it was written from.
pub proof fn lemma_digits_value(n: nat)
    ensures
        numeral_value(digits(n)) == n,
        digits(n).len() >= 1,
    decreases n,
{
    if n < 10 {
        let s = digits(n);
        assert(numeral_value(s.drop_last()) == 0);
    } else {
        lemma_digits_value(n / 10);
        let s = digits(n);
        assert(s.drop_last() =~= digits(n / 10));
    }
}

/// Two numbers with the same numeral are the same number.
pub proof fn lemma_digits_injective(a: nat, b: nat)
    requires
        digits(a) == digits(b),
    ensures
        a == b,
{
    lemma_digits_value(a);
    lemma_digits_value(b);
}

fn digit_text(d: u64) -> (text: &'static str)
    requires
        d < 10,
    ensures
        text@ == seq![digit_char(d as nat)],
{
    proof {
        reveal_strlit("0");
        reveal_strlit("1");
        reveal_strlit("2");
        reveal_strlit("3");
        reveal_strlit("4");
        reveal_strlit("5");
        reveal_strlit("6");
        reveal_strlit("7");
        reveal_strlit("8");
        reveal_strlit("9");
    }
    if d == 0 {
        "0"
    } else if d == 1 {
        "1"
    } else if d == 2 {
        "2"
    } else if d == 3 {
        "3"
    } else if d == 4 {
        "4"
    } else if d == 5 {
        "5"
    } else if d == 6 {
        "6"
    } else if d == 7 {
        "7"
    } else if d == 8 {
        "8"
    } else {
        "9"
    }
}

/// Writes `n` as a decimal numeral.
pub fn decimal(n: u64) -> (text: String)
    ensures
        text@ == digits(n as nat),
    decreases n,
{
    if n < 10 {
        String::from_str(digit_text(n))
    } else {
        let mut text = decimal(n / 10);
        text.append(digit_text(n % 10));
        text
    }
}

/// The index of the last dot of `s`, or 0 where it holds none.
pub open spec fn last_dot(s: Seq<char>) -> int
    decreases s.len(),
{
    if s.len() == 0 {
        0
    } else if s.last() == '.' {
        s.len() - 1
    } else {
        last_dot(s.drop_last())
    }
}

/// The part of a path before its last dot; the whole path where the last
/// dot is its first character or where it holds no dot.
pub open spec fn stem(path: Seq<char>) -> Seq<char> {
    if last_dot(path) > 0 {
        path.subrange(0, last_dot(path))
    } else {
        path
    }
}

/// The part of a path from its last dot on; empty where `stem` is the
/// whole path.
pub open spec fn extension(path: Seq<char>) -> Seq<char> {
    if last_dot(path) > 0 {
        path.subrange(last_dot(path), path.len() as int)
    } else {
        Seq::empty()
    }
}

/// The last dot lies inside the text, and stem and extension make up the
/// path again.
pub proof fn lemma_split_joins(path: Seq<char>)
    ensures
        0 <= last_dot(path) <= path.len(),
        last_dot(path) > 0 ==> last_dot(path) < path.len() && path[last_dot(path)] == '.',
        stem(path) + extension(path) == path,
    decreases path.len(),
{
    if path.len() > 0 && path.last() != '.' {
        lemma_split_joins(path.drop_last());
    }
}

/// Finds the last dot of `path`.
pub fn find_last_dot(path: &str) -> (dot: usize)
    ensures
        dot as int == last_dot(path@),
{
    let n: usize = path.unicode_len();
    let mut i: usize = n;
    assert(path@.subrange(0, n as int) =~= path@);
    while i > 0
        invariant
            i <= n,
            n == path@.len(),
            last_dot(path@) == last_dot(path@.subrange(0, i as int)),
        decreases i,
    {
        let c = path.get_char(i - 1);
        if c == '.' {
            return i - 1;
        }
        assert(path@.subrange(0, i as int).drop_last() =~= path@.subrange(0, i - 1));
        i = i - 1;
    }
    0
}

/// Splits `path` into stem and extension.
pub fn split_path(path: &str) -> (parts: (String, String))
    ensures
        parts.0@ == stem(path@),
        parts.1@ == extension(path@),
{
    let dot: usize = find_last_dot(path);
    proof {
        lemma_split_joins(path@);
    }
    if dot > 0 {
        let n: usize = path.unicode_len();
        (
            String::from_str(path.substring_char(0, dot)),
            String::from_str(path.substring_char(dot, n)),
        )
    } else {
        (String::from_str(path), String::new())
    }
}

/// Tests whether two texts are the same.
pub fn same_text(a: &str, b: &str) -> (same: bool)
    ensures
        same == (a@ == b@),
{
    let n: usize = a.unicode_len();
    if n != b.unicode_len() {
        return false;
    }
    let mut i: usize = 0;
    while i < n
        invariant
            i <= n,
            n == a@.len(),
            n == b@.len(),
            forall|k: int| 0 <= k < i ==> a@[k] == b@[k],
        decreases n - i,
    {
        if a.get_char(i) != b.get_char(i) {
            return false;
        }
        i = i + 1;
    }
    assert(a@ =~= b@);
    true
}

/// Whether `name` ends in `tail`.
pub open spec fn ends_with(name: Seq<char>, tail: Seq<char>) -> bool {
    name.len() >= tail.len() && name.subrange(name.len() - tail.len(), name.len() as int) == tail
}

} // verus!
