//! Natural numbers written in decimal digits.

use crate::text::{is_digit, run_end, CharClass};
use vstd::prelude::*;
use vstd::string::*;

verus! {

/// The number that the digit `c` stands for.
pub open spec fn digit_value(c: char) -> nat {
    (c as u32 - 0x30) as nat
}

/// The digit that stands for `d`, where `d` is less than ten.
pub open spec fn digit_char(d: nat) -> char {
    ((d + 0x30) as u32) as char
}

/// Whether `s` holds digits only.
pub open spec fn all_digits(s: Seq<char>) -> bool {
    forall|i: int| 0 <= i < s.len() ==> is_digit(#[trigger] s[i])
}

/// The number that the digits of `s` spell, most significant first.
pub open spec fn decimal_value(s: Seq<char>) -> nat
    decreases s.len(),
{
    if s.len() == 0 {
        0
    } else {
        decimal_value(s.drop_last()) * 10 + digit_value(s.last())
    }
}

/// `n` in decimal digits, without leading zeros.
pub open spec fn decimal(n: nat) -> Seq<char>
    decreases n,
{
    if n < 10 {
        seq![digit_char(n)]
    } else {
        decimal(n / 10).push(digit_char(n % 10))
    }
}

/// Whether `s` is a number in decimal digits without leading zeros.
pub open spec fn is_canonical(s: Seq<char>) -> bool {
    &&& s.len() > 0
    &&& all_digits(s)
    &&& s.len() > 1 ==> s[0] != '0'
}

/// What reading `s` as a `u64` gives: `s` is one or more digits, after an
/// optional `+`, that spell a number within the range of the type.
pub open spec fn parse_u64(s: Seq<char>) -> Option<u64> {
    let digits = if s.len() > 0 && s[0] == '+' {
        s.skip(1)
    } else {
        s
    };
    if digits.len() > 0 && all_digits(digits) && decimal_value(digits) <= u64::MAX {
        Some(decimal_value(digits) as u64)
    } else {
        None
    }
}

/// Digits spell no less than any of their prefixes.
pub proof fn lemma_decimal_value_prefix(s: Seq<char>, n: int)
    requires
        0 <= n <= s.len(),
    ensures
        decimal_value(s.take(n)) <= decimal_value(s),
    decreases s.len(),
{
    if n < s.len() {
        assert(s.drop_last().take(n) == s.take(n));
        lemma_decimal_value_prefix(s.drop_last(), n);
    } else {
        assert(s.take(n) == s);
    }
}

/// Writing a number and reading it back gives the number.
pub proof fn lemma_decimal_roundtrip(n: nat)
    ensures
        is_canonical(decimal(n)),
        decimal_value(decimal(n)) == n,
    decreases n,
{
    if n < 10 {
        let s = decimal(n);
        assert(s.drop_last() == Seq::<char>::empty());
        assert(decimal_value(s.drop_last()) == 0);
    } else {
        lemma_decimal_roundtrip(n / 10);
        let p = decimal(n / 10);
        let s = decimal(n);
        assert(s.drop_last() == p);
        assert(s[0] == p[0]);
        if p.len() == 1 {
            assert(decimal_value(p.drop_last()) == 0) by {
                assert(p.drop_last() == Seq::<char>::empty());
            }
        }
    }
}

/// The number that the digits of `v` from `from` to `to` spell, if it fits.
pub fn read_digits(v: &Vec<char>, from: usize, to: usize) -> (r: Option<u64>)
    requires
        from <= to <= v.len(),
        all_digits(v@.subrange(from as int, to as int)),
    ensures
        r is Some <==> decimal_value(v@.subrange(from as int, to as int)) <= u64::MAX,
        r matches Some(n) ==> n == decimal_value(v@.subrange(from as int, to as int)),
{
    let ghost whole = v@.subrange(from as int, to as int);
    let mut n: u64 = 0;
    let mut i: usize = from;
    proof {
        assert(v@.subrange(from as int, from as int) == Seq::<char>::empty());
    }
    while i < to
        invariant
            from <= i <= to <= v.len(),
            whole == v@.subrange(from as int, to as int),
            all_digits(whole),
            n == decimal_value(v@.subrange(from as int, i as int)),
        decreases to - i,
    {
        let ghost next = v@.subrange(from as int, i + 1);
        proof {
            assert(next.drop_last() == v@.subrange(from as int, i as int));
            assert(next.last() == whole[i - from]);
            assert(next == whole.take(i + 1 - from));
            lemma_decimal_value_prefix(whole, i + 1 - from);
        }
        let d: u64 = (v[i] as u32 - 0x30) as u64;
        let tens = match n.checked_mul(10) {
            Some(t) => t,
            None => {
                return None;
            },
        };
        n = match tens.checked_add(d) {
            Some(t) => t,
            None => {
                return None;
            },
        };
        i += 1;
    }
    Some(n)
}

/// Reads the characters of `v` from `from` to `to` as a `u64`.
pub fn read_u64(v: &Vec<char>, from: usize, to: usize) -> (r: Option<u64>)
    requires
        from <= to <= v.len(),
    ensures
        r == parse_u64(v@.subrange(from as int, to as int)),
{
    let ghost s = v@.subrange(from as int, to as int);
    let start: usize = if from < to && v[from] == '+' {
        from + 1
    } else {
        from
    };
    proof {
        assert(from < to ==> s[0] == v@[from as int]);
        if start > from {
            assert(s.skip(1) == v@.subrange(start as int, to as int));
        }
    }
    let ghost digits = v@.subrange(start as int, to as int);
    let end = run_end(v, start, CharClass::Digit);
    if start == to || end < to {
        proof {
            if end < to {
                assert(digits[end - start] == v@[end as int]);
            }
        }
        None
    } else {
        proof {
            assert forall|i: int| 0 <= i < digits.len() implies is_digit(#[trigger] digits[i]) by {
                assert(digits[i] == v@[start + i]);
            }
        }
        read_digits(v, start, to)
    }
}

/// The one-digit text for a number less than ten.
fn digit_text(d: u64) -> (t: &'static str)
    requires
        d < 10,
    ensures
        t@ == seq![digit_char(d as nat)],
{
    proof {
        reveal_strlit("0");
        reveal_strlit("1");
        reveal_strlit("2");
        reveal_strlit("3");
        reveal_strlit("4");
        reveal_strlit("5");
        reveal_strlit("6");
        reveal_strlit("7");
        reveal_strlit("8");
        reveal_strlit("9");
    }
    let t = match d {
        0 => "0",
        1 => "1",
        2 => "2",
        3 => "3",
        4 => "4",
        5 => "5",
        6 => "6",
        7 => "7",
        8 => "8",
        _ => "9",
    };
    assert(t@ =~= seq![digit_char(d as nat)]);
    t
}

/// Appends `n` in decimal digits to `out`.
pub fn push_decimal(out: &mut String, n: u64)
    ensures
        final(out)@ == old(out)@ + decimal(n as nat),
    decreases n,
{
    if n >= 10 {
        push_decimal(out, n / 10);
    }
    out.append(digit_text(n % 10));
    proof {
        if n >= 10 {
            assert(old(out)@ + decimal(n as nat / 10) + seq![digit_char(n as nat % 10)] == old(
                out,
            )@ + decimal(n as nat));
        }
    }
}

} // verus!
