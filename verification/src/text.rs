//! Small verified building blocks for text: character search, decimal
//! numerals, padding, and conversions between strings and character vectors.

use vstd::prelude::*;
use vstd::string::*;

verus! {

/// `String::push` appends exactly one character to the end of the string.
pub assume_specification[ std::string::String::push ](s: &mut std::string::String, ch: char)
    ensures
        final(s)@ == old(s)@.push(ch),
;

/// Whether `c` is white space as `char::is_whitespace` has it: whether it
/// has the Unicode property `White_Space`.
pub uninterp spec fn is_white_space(c: char) -> bool;

/// `char::is_whitespace` says whether its character has the Unicode
/// property `White_Space`. Which characters those are is left to the
/// standard library: the contract only gives the answer a name.
pub assume_specification[ char::is_whitespace ](c: char) -> (r: bool)
    ensures
        r == is_white_space(c),
;

/// The first index at or after `from` whose character satisfies `stop`, or
/// the length of `s` when there is none.
pub open spec fn first_index(s: Seq<char>, from: int, stop: spec_fn(char) -> bool) -> int
    decreases s.len() - from,
{
    if from >= s.len() {
        s.len() as int
    } else if stop(s[from]) {
        from
    } else {
        first_index(s, from + 1, stop)
    }
}

/// `first_index` stays in range, skips only characters that do not stop it,
/// and lands on a stopping character unless it ran off the end.
pub proof fn lemma_first_index(s: Seq<char>, from: int, stop: spec_fn(char) -> bool)
    requires
        0 <= from <= s.len(),
    ensures
        from <= first_index(s, from, stop) <= s.len(),
        forall|k: int| from <= k < first_index(s, from, stop) ==> !stop(#[trigger] s[k]),
        first_index(s, from, stop) < s.len() ==> stop(s[first_index(s, from, stop)]),
    decreases s.len() - from,
{
    if from < s.len() && !stop(s[from]) {
        lemma_first_index(s, from + 1, stop);
    }
}

/// An index that no stopping character comes before, and that holds one or
/// is the end of the text, is the index that `first_index` finds.
pub proof fn lemma_first_index_unique(
    s: Seq<char>,
    from: int,
    stop: spec_fn(char) -> bool,
    at: int,
)
    requires
        0 <= from <= at <= s.len(),
        forall|k: int| from <= k < at ==> !stop(#[trigger] s[k]),
        at < s.len() ==> stop(s[at]),
    ensures
        first_index(s, from, stop) == at,
    decreases at - from,
{
    if from < at {
        assert(!stop(s[from]));
        lemma_first_index_unique(s, from + 1, stop, at);
    }
}

/// The characters of a string slice, as a vector.
pub fn to_chars(s: &str) -> (v: Vec<char>)
    ensures
        v@ == s@,
{
    let mut v: Vec<char> = Vec::new();
    for c in it: s.chars()
        invariant
            v@ == it.seq().take(it.index() as int),
            it.seq() == s@,
    {
        v.push(c);
    }
    v
}

/// The characters `chars[from..to]`, as a string.
pub fn string_of(chars: &Vec<char>, from: usize, to: usize) -> (s: String)
    requires
        from <= to <= chars.len(),
    ensures
        s@ == chars@.subrange(from as int, to as int),
{
    let mut s = String::new();
    let mut i: usize = from;
    while i < to
        invariant
            from <= i <= to <= chars.len(),
            s@ == chars@.subrange(from as int, i as int),
        decreases to - i,
    {
        s.push(chars[i]);
        i += 1;
    }
    s
}

/// A run of `n` spaces.
pub open spec fn spaces_spec(n: nat) -> Seq<char> {
    Seq::new(n, |i: int| ' ')
}

/// A string of `n` spaces.
pub fn spaces(n: usize) -> (s: String)
    ensures
        s@ == spaces_spec(n as nat),
{
    let mut s = String::new();
    let mut i: usize = 0;
    while i < n
        invariant
            i <= n,
            s@ == spaces_spec(i as nat),
        decreases n - i,
    {
        s.push(' ');
        i += 1;
    }
    s
}

/// The character of a decimal digit; `'0'` for anything above nine.
pub open spec fn digit_char(d: nat) -> char {
    if d == 1 {
        '1'
    } else if d == 2 {
        '2'
    } else if d == 3 {
        '3'
    } else if d == 4 {
        '4'
    } else if d == 5 {
        '5'
    } else if d == 6 {
        '6'
    } else if d == 7 {
        '7'
    } else if d == 8 {
        '8'
    } else if d == 9 {
        '9'
    } else {
        '0'
    }
}

/// The decimal numeral of `n`, most significant digit first, without
/// leading zeros.
pub open spec fn decimal_spec(n: nat) -> Seq<char>
    decreases n,
{
    if n < 10 {
        seq![digit_char(n)]
    } else {
        decimal_spec(n / 10).push(digit_char(n % 10))
    }
}

fn digit(d: usize) -> (c: char)
    requires
        d < 10,
    ensures
        c == digit_char(d as nat),
{
    if d == 1 {
        '1'
    } else if d == 2 {
        '2'
    } else if d == 3 {
        '3'
    } else if d == 4 {
        '4'
    } else if d == 5 {
        '5'
    } else if d == 6 {
        '6'
    } else if d == 7 {
        '7'
    } else if d == 8 {
        '8'
    } else if d == 9 {
        '9'
    } else {
        '0'
    }
}

/// Appends the decimal numeral of `n` to `out`.
pub fn push_decimal(out: &mut String, n: usize)
    ensures
        final(out)@ == old(out)@ + decimal_spec(n as nat),
    decreases n,
{
    if n >= 10 {
        push_decimal(out, n / 10);
    }
    out.push(digit(n % 10));
}

/// The decimal numeral of `n`.
pub fn decimal(n: usize) -> (s: String)
    ensures
        s@ == decimal_spec(n as nat),
{
    let mut s = String::new();
    push_decimal(&mut s, n);
    s
}

/// How many digits the decimal numeral of `n` has.
pub fn decimal_width(n: usize) -> (w: usize)
    ensures
        w == decimal_spec(n as nat).len(),
        w >= 1,
{
    let mut w: usize = 1;
    let mut rest: usize = n;
    while rest >= 10
        invariant
            w >= 1,
            w + rest <= n + 1,
            decimal_spec(n as nat).len() == decimal_spec(rest as nat).len() + w - 1,
        decreases rest,
    {
        rest = rest / 10;
        w += 1;
    }
    w
}

} // verus!
