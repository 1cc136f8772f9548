//! The decimal text of integers: how std reads an integer literal and how it
//! writes an integer.
use vstd::prelude::*;

use crate::text::{ascii_lower_already, is_ws, lemma_lowercase_noop, lowercase_of, trim_ws};

verus! {

pub open spec fn is_digit(c: char) -> bool {
    '0' <= c && c <= '9'
}

pub open spec fn digit_value(c: char) -> int {
    (c as u32) as int - ('0' as u32) as int
}

/// The value of a string of decimal digits.
pub open spec fn digits_value(d: Seq<char>) -> int
    decreases d.len(),
{
    if d.len() == 0 {
        0
    } else {
        10 * digits_value(d.drop_last()) + digit_value(d.last())
    }
}

/// The value of a non-empty string of decimal digits.
pub open spec fn digits(d: Seq<char>) -> Option<int> {
    if d.len() > 0 && forall|i: int| 0 <= i < d.len() ==> is_digit(#[trigger] d[i]) {
        Some(digits_value(d))
    } else {
        None
    }
}

/// An optional `+` followed by digits: how std reads an unsigned integer.
pub open spec fn unsigned_literal(s: Seq<char>) -> Option<int> {
    if s.len() > 0 && s[0] == '+' {
        digits(s.drop_first())
    } else {
        digits(s)
    }
}

/// An optional `+` or `-` followed by digits: how std reads a signed integer.
pub open spec fn signed_literal(s: Seq<char>) -> Option<int> {
    if s.len() > 0 && s[0] == '-' {
        match digits(s.drop_first()) {
            Some(n) => Some(-n),
            None => None,
        }
    } else {
        unsigned_literal(s)
    }
}

pub open spec fn digit_char(d: int) -> char {
    seq!['0', '1', '2', '3', '4', '5', '6', '7', '8', '9'][d]
}

/// The decimal digits of `n`, without leading zeros.
pub open spec fn natural_text(n: nat) -> Seq<char>
    decreases n,
{
    if n < 10 {
        seq![digit_char(n as int)]
    } else {
        natural_text(n / 10).push(digit_char((n % 10) as int))
    }
}

/// The decimal text of `n`, with a `-` for a negative number.
pub open spec fn decimal(n: int) -> Seq<char> {
    if n < 0 {
        seq!['-'] + natural_text((-n) as nat)
    } else {
        natural_text(n as nat)
    }
}

proof fn lemma_natural_text(n: nat)
    ensures
        natural_text(n).len() > 0,
        forall|i: int| 0 <= i < natural_text(n).len() ==> is_digit(#[trigger] natural_text(n)[i]),
        digits_value(natural_text(n)) == n,
    decreases n,
{
    let t = natural_text(n);
    if n < 10 {
        assert(digits_value(t) == 10 * digits_value(t.drop_last()) + digit_value(t.last()));
        assert(t.drop_last() =~= Seq::<char>::empty());
    } else {
        lemma_natural_text(n / 10);
        let p = natural_text(n / 10);
        assert(t.drop_last() =~= p);
        assert forall|i: int| 0 <= i < t.len() implies is_digit(#[trigger] t[i]) by {
            if i < p.len() {
                assert(t[i] == p[i]);
            }
        }
    }
}

/// The decimal text of an integer reads back as that integer, and is unchanged by
/// trimming and lower-casing.
pub proof fn lemma_decimal(n: int)
    ensures
        signed_literal(decimal(n)) == Some(n),
        n >= 0 ==> unsigned_literal(decimal(n)) == Some(n),
        ascii_lower_already(decimal(n)),
        lowercase_of(decimal(n)) == decimal(n),
        trim_ws(decimal(n)) == decimal(n),
{
    let t = decimal(n);
    if n < 0 {
        let m = (-n) as nat;
        lemma_natural_text(m);
        assert(t.drop_first() =~= natural_text(m));
        assert forall|i: int| 0 <= i < t.len() implies (t[i] as u32) < 128 && !('A' <= #[trigger] t[i]
            && t[i] <= 'Z') by {
            if i > 0 {
                assert(t[i] == natural_text(m)[i - 1]);
            }
        }
    } else {
        lemma_natural_text(n as nat);
        assert(!is_ws(t[0]) && !is_ws(t.last()));
    }
    assert(!is_ws(t[0]) && !is_ws(t.last())) by {
        if n < 0 {
            assert(t.last() == natural_text((-n) as nat).last());
        }
    }
    lemma_lowercase_noop(t);
}

} // verus!
