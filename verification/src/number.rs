//! Which words are numbers.
//!
//! A number is written as a floating-point literal:
//!
//! ```text
//! Float    ::= Sign? ( 'inf' | 'infinity' | 'nan' | Number )
//! Number   ::= Mantissa Exponent?
//! Mantissa ::= Digit+ | Digit+ '.' Digit* | Digit* '.' Digit+
//! Exponent ::= 'e' Sign? Digit+
//! Sign     ::= [+-]
//! Digit    ::= [0-9]
//! ```
//!
//! Letters match in either case. This is the set of strings that the
//! standard library parses as an `f64`, so the text of a number token can be
//! handed to that parser to get its value.

use crate::text::{first_index, lemma_first_index, to_chars};
use vstd::prelude::*;

verus! {

/// A decimal digit.
pub open spec fn is_digit(c: char) -> bool {
    '0' <= c <= '9'
}

/// A plus or a minus sign.
pub open spec fn is_sign(c: char) -> bool {
    c == '+' || c == '-'
}

/// The letter that marks an exponent, in either case.
pub open spec fn is_exponent_mark(c: char) -> bool {
    c == 'e' || c == 'E'
}

/// `s` without its leading sign, if it has one.
pub open spec fn unsigned(s: Seq<char>) -> Seq<char> {
    if s.len() > 0 && is_sign(s[0]) {
        s.subrange(1, s.len() as int)
    } else {
        s
    }
}

/// Digits around at most one point, with at least one digit.
pub open spec fn is_mantissa(s: Seq<char>) -> bool {
    &&& forall|i: int| 0 <= i < s.len() ==> is_digit(#[trigger] s[i]) || s[i] == '.'
    &&& forall|i: int, j: int|
        0 <= i < j < s.len() ==> !(#[trigger] s[i] == '.' && #[trigger] s[j] == '.')
    &&& exists|i: int| 0 <= i < s.len() && is_digit(#[trigger] s[i])
}

/// What follows the exponent mark: an optional sign, then one digit or more.
pub open spec fn is_exponent(s: Seq<char>) -> bool {
    let digits = unsigned(s);
    digits.len() >= 1 && forall|i: int| 0 <= i < digits.len() ==> is_digit(#[trigger] digits[i])
}

/// A mantissa, alone or followed by an exponent mark and an exponent. The
/// mantissa holds no letter, so the first exponent mark is where it ends.
pub open spec fn is_decimal(s: Seq<char>) -> bool {
    let mark = first_index(s, 0, |c: char| is_exponent_mark(c));
    &&& is_mantissa(s.subrange(0, mark))
    &&& mark < s.len() ==> is_exponent(s.subrange(mark + 1, s.len() as int))
}

/// `s` spells `word`, which is given in lower case, in any mix of cases.
pub open spec fn spells(s: Seq<char>, word: Seq<char>) -> bool {
    &&& s.len() == word.len()
    &&& forall|i: int| 0 <= i < s.len() ==> lower_case(#[trigger] s[i]) == word[i]
}

/// The lower-case form of an upper-case ASCII letter; any other character
/// is left as it is.
pub open spec fn lower_case(c: char) -> char {
    if 'A' <= c <= 'Z' {
        ((c as u8) + 32) as char
    } else {
        c
    }
}

/// One of the three names of a value that is not finite.
pub open spec fn is_special(s: Seq<char>) -> bool {
    spells(s, seq!['i', 'n', 'f']) || spells(s, seq!['n', 'a', 'n']) || spells(
        s,
        seq!['i', 'n', 'f', 'i', 'n', 'i', 't', 'y'],
    )
}

/// `word` is a floating-point literal.
pub open spec fn is_number_word(word: Seq<char>) -> bool {
    is_decimal(unsigned(word)) || is_special(unsigned(word))
}

fn lower(c: char) -> (l: char)
    ensures
        l == lower_case(c),
{
    if 'A' <= c && c <= 'Z' {
        let b: u8 = c as u8;
        (b + 32) as char
    } else {
        c
    }
}

/// Whether `chars[from..]` spells `word` in any mix of cases.
fn spells_from(chars: &Vec<char>, from: usize, word: &[char]) -> (r: bool)
    requires
        from <= chars.len(),
    ensures
        r == spells(chars@.subrange(from as int, chars.len() as int), word@),
{
    let len = chars.len() - from;
    if len != word.len() {
        return false;
    }
    let ghost s = chars@.subrange(from as int, chars.len() as int);
    let mut i: usize = 0;
    while i < len
        invariant
            i <= len,
            len == word.len(),
            len == chars.len() - from,
            s == chars@.subrange(from as int, chars.len() as int),
            forall|k: int| 0 <= k < i ==> lower_case(#[trigger] s[k]) == word@[k],
        decreases len - i,
    {
        if lower(chars[from + i]) != word[i] {
            assert(lower_case(s[i as int]) != word@[i as int]);
            return false;
        }
        i = i + 1;
    }
    true
}

/// Whether `chars[from..to]` is a mantissa.
fn is_mantissa_range(chars: &Vec<char>, from: usize, to: usize) -> (r: bool)
    requires
        from <= to <= chars.len(),
    ensures
        r == is_mantissa(chars@.subrange(from as int, to as int)),
{
    let ghost s = chars@.subrange(from as int, to as int);
    let mut seen_point = false;
    let mut seen_digit = false;
    let ghost mut point: int = 0;
    let ghost mut digit: int = 0;
    let mut i: usize = from;
    while i < to
        invariant
            from <= i <= to <= chars.len(),
            s == chars@.subrange(from as int, to as int),
            forall|k: int| 0 <= k < i - from ==> is_digit(#[trigger] s[k]) || s[k] == '.',
            forall|k: int, l: int|
                0 <= k < l < i - from ==> !(#[trigger] s[k] == '.' && #[trigger] s[l] == '.'),
            seen_point ==> 0 <= point < i - from && s[point] == '.',
            !seen_point ==> forall|k: int| 0 <= k < i - from ==> #[trigger] s[k] != '.',
            seen_digit ==> 0 <= digit < i - from && is_digit(s[digit]),
            !seen_digit ==> forall|k: int| 0 <= k < i - from ==> !is_digit(#[trigger] s[k]),
        decreases to - i,
    {
        let c = chars[i];
        assert(c == s[i - from]);
        if c == '.' {
            if seen_point {
                assert(s[point] == '.' && s[i - from] == '.');
                return false;
            }
            seen_point = true;
            proof {
                point = i - from;
            }
        } else if '0' <= c && c <= '9' {
            seen_digit = true;
            proof {
                digit = i - from;
            }
        } else {
            assert(!(is_digit(s[i - from]) || s[i - from] == '.'));
            return false;
        }
        i = i + 1;
    }
    seen_digit
}

/// Whether `chars[from..]` is an exponent.
fn is_exponent_from(chars: &Vec<char>, from: usize) -> (r: bool)
    requires
        from <= chars.len(),
    ensures
        r == is_exponent(chars@.subrange(from as int, chars.len() as int)),
{
    let len = chars.len();
    let ghost s = chars@.subrange(from as int, len as int);
    let start = if from < len && (chars[from] == '+' || chars[from] == '-') {
        from + 1
    } else {
        from
    };
    let ghost digits = unsigned(s);
    assert(digits =~= chars@.subrange(start as int, len as int));
    if start == len {
        return false;
    }
    let mut i: usize = start;
    while i < len
        invariant
            start <= i <= len,
            len == chars.len(),
            digits == chars@.subrange(start as int, len as int),
            digits == unsigned(chars@.subrange(from as int, len as int)),
            forall|k: int| 0 <= k < i - start ==> is_digit(#[trigger] digits[k]),
        decreases len - i,
    {
        let c = chars[i];
        assert(c == digits[i - start]);
        if !('0' <= c && c <= '9') {
            assert(!is_digit(digits[i - start]));
            return false;
        }
        i = i + 1;
    }
    true
}

/// Whether `chars[from..]` is a mantissa with or without an exponent.
fn is_decimal_from(chars: &Vec<char>, from: usize) -> (r: bool)
    requires
        from <= chars.len(),
    ensures
        r == is_decimal(chars@.subrange(from as int, chars.len() as int)),
{
    let len = chars.len();
    let ghost s = chars@.subrange(from as int, len as int);
    let ghost marked = |c: char| is_exponent_mark(c);
    proof {
        lemma_first_index(s, 0, marked);
    }
    let mut mark: usize = from;
    while mark < len && !(chars[mark] == 'e' || chars[mark] == 'E')
        invariant
            from <= mark <= len,
            len == chars.len(),
            s == chars@.subrange(from as int, len as int),
            marked == |c: char| is_exponent_mark(c),
            first_index(s, mark - from, marked) == first_index(s, 0, marked),
        decreases len - mark,
    {
        assert(s[mark - from] == chars[mark as int]);
        mark = mark + 1;
    }
    assert(first_index(s, 0, marked) == mark - from) by {
        if mark < len {
            assert(s[mark - from] == chars[mark as int]);
        }
    }
    assert(s.subrange(0, mark - from) =~= chars@.subrange(from as int, mark as int));
    if !is_mantissa_range(chars, from, mark) {
        return false;
    }
    if mark < len {
        assert(s.subrange(mark - from + 1, s.len() as int) =~= chars@.subrange(
            mark + 1,
            len as int,
        ));
        is_exponent_from(chars, mark + 1)
    } else {
        true
    }
}

/// Whether `word` is a number: a floating-point literal as the grammar at
/// the head of this module has it.
pub fn is_number(word: &str) -> (r: bool)
    ensures
        r == is_number_word(word@),
{
    let chars = to_chars(word);
    let len = chars.len();
    let start: usize = if len > 0 && (chars[0] == '+' || chars[0] == '-') {
        1
    } else {
        0
    };
    assert(unsigned(word@) =~= chars@.subrange(start as int, len as int));
    if is_decimal_from(&chars, start) {
        return true;
    }
    let inf = ['i', 'n', 'f'];
    let nan = ['n', 'a', 'n'];
    let infinity = ['i', 'n', 'f', 'i', 'n', 'i', 't', 'y'];
    assert(inf@ =~= seq!['i', 'n', 'f']);
    assert(nan@ =~= seq!['n', 'a', 'n']);
    assert(infinity@ =~= seq!['i', 'n', 'f', 'i', 'n', 'i', 't', 'y']);
    spells_from(&chars, start, inf.as_slice()) || spells_from(&chars, start, nan.as_slice())
        || spells_from(&chars, start, infinity.as_slice())
}

} // verus!
