//! Numeric tokens of a benchmark log: decimal digits, grouped by commas for
//! the human reader.

use vstd::prelude::*;

verus! {

/// The grouping separator that the log producer inserts into large numbers.
pub const SEPARATOR: char = ',';

/// One more than the largest magnitude a 32-bit signed integer can have.
pub const MAGNITUDE_LIMIT: i64 = 2147483648;

/// A token with every grouping separator taken out.
pub open spec fn strip_separators(token: Seq<char>) -> Seq<char> {
    token.filter(|c: char| c != SEPARATOR)
}

pub open spec fn is_digit(c: char) -> bool {
    '0' <= c && c <= '9'
}

pub open spec fn is_sign(c: char) -> bool {
    c == '+' || c == '-'
}

pub open spec fn digit_value(c: char) -> int {
    c as u32 as int - '0' as u32 as int
}

/// The number that a run of decimal digits denotes, most significant first.
pub open spec fn decimal(digits: Seq<char>) -> int
    decreases digits.len(),
{
    if digits.len() == 0 {
        0
    } else {
        decimal(digits.drop_last()) * 10 + digit_value(digits.last())
    }
}

pub open spec fn all_digits(text: Seq<char>) -> bool {
    forall|i: int| 0 <= i < text.len() ==> is_digit(#[trigger] text[i])
}

pub open spec fn has_sign(text: Seq<char>) -> bool {
    text.len() > 0 && is_sign(text[0])
}

/// What is left of an integer literal once a leading sign is set aside.
pub open spec fn magnitude_digits(text: Seq<char>) -> Seq<char> {
    if has_sign(text) {
        text.drop_first()
    } else {
        text
    }
}

/// The value of an integer literal: an optional sign, then one or more
/// decimal digits and nothing else. Anything else denotes no number.
pub open spec fn integer_literal(text: Seq<char>) -> Option<int> {
    let digits = magnitude_digits(text);
    if digits.len() > 0 && all_digits(digits) {
        if text[0] == '-' {
            Some(-decimal(digits))
        } else {
            Some(decimal(digits))
        }
    } else {
        None
    }
}

/// The 32-bit number that a token of the log stands for: its separators
/// are dropped and the rest is read as an integer literal, which has to lie
/// in the range of `i32`.
pub open spec fn bench_number(token: Seq<char>) -> Option<i32> {
    match integer_literal(strip_separators(token)) {
        Some(v) => if i32::MIN <= v <= i32::MAX {
            Some(v as i32)
        } else {
            None
        },
        None => None,
    }
}

/// The separator-free text of the first `n` characters of a token.
pub open spec fn scanned(token: Seq<char>, n: int) -> Seq<char> {
    strip_separators(token.take(n))
}

/// Stripping a token that ends in `c` strips what stands before `c` and
/// keeps `c` unless it is a separator.
pub proof fn lemma_strip_push(prefix: Seq<char>, c: char)
    ensures
        strip_separators(prefix.push(c)) == if c != SEPARATOR {
            strip_separators(prefix).push(c)
        } else {
            strip_separators(prefix)
        },
{
    reveal(Seq::filter);
    assert(prefix.push(c).drop_last() =~= prefix);
}

/// A run of characters that ends in `c` is all digits exactly when `c` is a
/// digit and so is all that stands before it.
pub proof fn lemma_all_digits_push(digits: Seq<char>, c: char)
    ensures
        all_digits(digits.push(c)) == (all_digits(digits) && is_digit(c)),
{
    let longer = digits.push(c);
    if all_digits(longer) {
        assert(is_digit(longer[digits.len() as int]));
        assert forall|i: int| 0 <= i < digits.len() implies is_digit(#[trigger] digits[i]) by {
            assert(is_digit(longer[i]));
        }
    }
}

/// Reads a numeric token, ignoring its grouping separators.
pub fn normalize(token: &str) -> (value: Option<i32>)
    ensures
        value == bench_number(token@),
{
    let mut started = false;
    let mut negative = false;
    let mut any_digit = false;
    let mut valid = true;
    let mut overflow = false;
    let mut magnitude: i64 = 0;
    proof {
        reveal(Seq::filter);
        assert(token@.take(0) =~= Seq::<char>::empty());
    }
    for c in it: token.chars()
        invariant
            it.seq() == token@,
            started == (scanned(token@, it.index()).len() > 0),
            negative == (scanned(token@, it.index()).len() > 0 && scanned(token@, it.index())[0] == '-'),
            any_digit == (magnitude_digits(scanned(token@, it.index())).len() > 0),
            valid == all_digits(magnitude_digits(scanned(token@, it.index()))),
            0 <= magnitude <= MAGNITUDE_LIMIT,
            valid && !overflow ==> magnitude == decimal(magnitude_digits(scanned(token@, it.index()))),
            valid && overflow ==> decimal(magnitude_digits(scanned(token@, it.index()))) > MAGNITUDE_LIMIT,
    {
        let ghost prefix = token@.take(it.index());
        let ghost text = strip_separators(prefix);
        let ghost digits = magnitude_digits(text);
        proof {
            assert(token@.take(it.index() + 1) =~= prefix.push(c));
            lemma_strip_push(prefix, c);
        }
        if c != SEPARATOR {
            let ghost text2 = text.push(c);
            let ghost digits2 = magnitude_digits(text2);
            if !started && (c == '+' || c == '-') {
                started = true;
                negative = c == '-';
                proof {
                    assert(digits2 =~= Seq::<char>::empty());
                }
            } else {
                proof {
                    assert(digits2 =~= digits.push(c));
                    assert(digits2.drop_last() =~= digits);
                    lemma_all_digits_push(digits, c);
                }
                started = true;
                any_digit = true;
                if c >= '0' && c <= '9' {
                    let d: i64 = (c as u32 - '0' as u32) as i64;
                    if !overflow {
                        magnitude = magnitude * 10 + d;
                        if magnitude > MAGNITUDE_LIMIT {
                            overflow = true;
                            magnitude = MAGNITUDE_LIMIT;
                        }
                    }
                } else {
                    valid = false;
                }
            }
        }
    }
    proof {
        assert(token@.take(token@.len() as int) =~= token@);
    }
    if !valid || !any_digit || overflow {
        return None;
    }
    if negative {
        Some((-magnitude) as i32)
    } else if magnitude == MAGNITUDE_LIMIT {
        None
    } else {
        Some(magnitude as i32)
    }
}

/// A text that holds no separator is its own separator-free form.
pub proof fn lemma_strip_clean(text: Seq<char>)
    requires
        forall|i: int| 0 <= i < text.len() ==> text[i] != SEPARATOR,
    ensures
        strip_separators(text) == text,
    decreases text.len(),
{
    reveal(Seq::filter);
    if text.len() > 0 {
        lemma_strip_clean(text.drop_last());
        assert(text.drop_last().push(text.last()) =~= text);
    }
}

/// Grouping does not count: a token stands for the same number as the
/// token without its separators.
pub proof fn lemma_separators_ignored(token: Seq<char>)
    ensures
        bench_number(strip_separators(token)) == bench_number(token),
{
    let keep = |c: char| c != SEPARATOR;
    let bare = strip_separators(token);
    assert forall|i: int| 0 <= i < bare.len() implies bare[i] != SEPARATOR by {
        token.lemma_filter_pred(keep, i);
    }
    lemma_strip_clean(bare);
}

/// Grouping does not count: a separator put into a token, at any place,
/// leaves the number that the token stands for as it was.
pub proof fn lemma_separator_inserted(token: Seq<char>, at: int)
    requires
        0 <= at <= token.len(),
    ensures
        bench_number(token.insert(at, SEPARATOR)) == bench_number(token),
{
    let keep = |c: char| c != SEPARATOR;
    let front = token.take(at);
    let back = token.skip(at);
    assert(token.insert(at, SEPARATOR) =~= front.push(SEPARATOR) + back);
    assert(token =~= front + back);
    lemma_strip_push(front, SEPARATOR);
    Seq::filter_distributes_over_add(front.push(SEPARATOR), back, keep);
    Seq::filter_distributes_over_add(front, back, keep);
}

} // verus!
