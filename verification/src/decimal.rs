//! Decimal text of 32-bit signed integers, as `str::parse::<i32>` reads it and
//! `i32::to_string` writes it.

use vstd::prelude::*;

use crate::text::{chars_of, string_from_chars};

verus! {

/// Whether `c` is an ASCII decimal digit.
pub open spec fn is_digit(c: char) -> bool {
    '0' <= c && c <= '9'
}

/// The value of a digit character.
pub open spec fn digit_value(c: char) -> int {
    c as int - '0' as int
}

/// The character of a digit value.
pub open spec fn digit_char(d: int) -> char {
    if d == 0 {
        '0'
    } else if d == 1 {
        '1'
    } else if d == 2 {
        '2'
    } else if d == 3 {
        '3'
    } else if d == 4 {
        '4'
    } else if d == 5 {
        '5'
    } else if d == 6 {
        '6'
    } else if d == 7 {
        '7'
    } else if d == 8 {
        '8'
    } else {
        '9'
    }
}

/// Whether `s` is a non-empty run of digits.
pub open spec fn is_digit_run(s: Seq<char>) -> bool {
    &&& s.len() > 0
    &&& forall|i: int| 0 <= i < s.len() ==> is_digit(#[trigger] s[i])
}

/// The value of a run of digits, most significant first.
pub open spec fn digits_value(s: Seq<char>) -> int
    decreases s.len(),
{
    if s.len() == 0 {
        0
    } else {
        digits_value(s.drop_last()) * 10 + digit_value(s.last())
    }
}

/// The integer that `s` denotes: an optional `+` or `-` followed by at least one
/// digit, and nothing else.
pub open spec fn signed_decimal_value(s: Seq<char>) -> Option<int> {
    if s.len() > 0 && (s[0] == '-' || s[0] == '+') {
        if is_digit_run(s.drop_first()) {
            if s[0] == '-' {
                Some(-digits_value(s.drop_first()))
            } else {
                Some(digits_value(s.drop_first()))
            }
        } else {
            None
        }
    } else if is_digit_run(s) {
        Some(digits_value(s))
    } else {
        None
    }
}

/// What `s.parse::<i32>()` yields: the value when `s` denotes an integer that
/// fits in an `i32`, nothing otherwise.
pub open spec fn i32_of_decimal(s: Seq<char>) -> Option<i32> {
    match signed_decimal_value(s) {
        Some(v) => if i32::MIN <= v <= i32::MAX {
            Some(v as i32)
        } else {
            None
        },
        None => None,
    }
}

/// The shortest decimal text of a natural number.
pub open spec fn nat_decimal(n: nat) -> Seq<char>
    decreases n,
{
    if n < 10 {
        seq![digit_char(n as int)]
    } else {
        nat_decimal(n / 10).push(digit_char((n % 10) as int))
    }
}

/// The decimal text of an integer: a `-` before negative values, no leading zeros.
pub open spec fn int_decimal(v: int) -> Seq<char> {
    if v < 0 {
        seq!['-'] + nat_decimal((-v) as nat)
    } else {
        nat_decimal(v as nat)
    }
}

proof fn lemma_digit_char(d: int)
    requires
        0 <= d < 10,
    ensures
        is_digit(digit_char(d)),
        digit_value(digit_char(d)) == d,
{
}

proof fn lemma_digits_value_nonneg(s: Seq<char>)
    requires
        forall|i: int| 0 <= i < s.len() ==> is_digit(#[trigger] s[i]),
    ensures
        digits_value(s) >= 0,
    decreases s.len(),
{
    if s.len() > 0 {
        assert forall|i: int| 0 <= i < s.drop_last().len() implies is_digit(
            #[trigger] s.drop_last()[i],
        ) by {
            assert(s.drop_last()[i] == s[i]);
        }
        lemma_digits_value_nonneg(s.drop_last());
        assert(is_digit(s[s.len() - 1]));
    }
}

/// The decimal text of `n` is a run of digits that denotes `n`.
pub proof fn lemma_nat_decimal(n: nat)
    ensures
        is_digit_run(nat_decimal(n)),
        digits_value(nat_decimal(n)) == n,
    decreases n,
{
    if n < 10 {
        lemma_digit_char(n as int);
        let s = nat_decimal(n);
        assert(s.drop_last() =~= Seq::<char>::empty());
        assert(s.last() == digit_char(n as int));
        assert(digits_value(s) == digits_value(s.drop_last()) * 10 + digit_value(s.last()));
    } else {
        lemma_nat_decimal(n / 10);
        lemma_digit_char((n % 10) as int);
        let s = nat_decimal(n);
        let p = nat_decimal(n / 10);
        assert(s.drop_last() =~= p);
        assert(s.last() == digit_char((n % 10) as int));
        assert(digits_value(s) == digits_value(p) * 10 + digit_value(s.last()));
        assert(n == (n / 10) * 10 + n % 10);
        assert forall|i: int| 0 <= i < s.len() implies is_digit(#[trigger] s[i]) by {
            if i < p.len() {
                assert(s[i] == p[i]);
            }
        }
    }
}

/// Reading back the decimal text of any `i32` gives that `i32`.
pub proof fn lemma_parse_int_decimal(v: i32)
    ensures
        i32_of_decimal(int_decimal(v as int)) == Some(v),
{
    if v < 0 {
        let m = (-v) as nat;
        lemma_nat_decimal(m);
        let s = int_decimal(v as int);
        assert(s.drop_first() =~= nat_decimal(m));
        assert(s[0] == '-');
    } else {
        lemma_nat_decimal(v as nat);
        let s = nat_decimal(v as nat);
        assert(is_digit(s[0]));
    }
}

fn digit_char_of(d: u64) -> (c: char)
    requires
        d < 10,
    ensures
        c == digit_char(d as int),
{
    if d == 0 {
        '0'
    } else if d == 1 {
        '1'
    } else if d == 2 {
        '2'
    } else if d == 3 {
        '3'
    } else if d == 4 {
        '4'
    } else if d == 5 {
        '5'
    } else if d == 6 {
        '6'
    } else if d == 7 {
        '7'
    } else if d == 8 {
        '8'
    } else {
        '9'
    }
}

fn push_nat_decimal(n: u64, out: &mut Vec<char>)
    ensures
        final(out)@ == old(out)@ + nat_decimal(n as nat),
    decreases n,
{
    if n >= 10 {
        push_nat_decimal(n / 10, out);
    }
    let c = digit_char_of(n % 10);
    out.push(c);
    proof {
        if n >= 10 {
            assert(nat_decimal(n as nat) == nat_decimal((n / 10) as nat).push(c));
        } else {
            assert(nat_decimal(n as nat) =~= seq![c]);
        }
        assert(final(out)@ =~= old(out)@ + nat_decimal(n as nat));
    }
}

/// The decimal text of `v`, as `v.to_string()` writes it.
pub fn format_i32(v: i32) -> (s: String)
    ensures
        s@ == int_decimal(v as int),
{
    let mut out: Vec<char> = Vec::new();
    let magnitude: u64;
    if v < 0 {
        out.push('-');
        let w: i64 = v as i64;
        magnitude = (-w) as u64;
    } else {
        magnitude = v as u64;
    }
    push_nat_decimal(magnitude, &mut out);
    proof {
        if v < 0 {
            assert(out@ =~= seq!['-'] + nat_decimal(magnitude as nat));
        } else {
            assert(out@ =~= nat_decimal(magnitude as nat));
        }
    }
    string_from_chars(out.as_slice())
}

/// A bound past which the exact value of a digit run no longer matters.
const DIGITS_CAP: u64 = 0x8000_0001;

/// `v`, or the cap when `v` passes it.
spec fn capped(v: int) -> int {
    if v > DIGITS_CAP as int {
        DIGITS_CAP as int
    } else {
        v
    }
}

proof fn lemma_cap_step(v: int, d: int)
    requires
        v >= 0,
        0 <= d < 10,
    ensures
        capped(capped(v) * 10 + d) == capped(v * 10 + d),
{
}

/// Reads `s` as `s.parse::<i32>()` does: an optional sign, then decimal digits
/// only; `None` when that fails or the value does not fit in an `i32`.
pub fn parse_i32(s: &str) -> (r: Option<i32>)
    ensures
        r == i32_of_decimal(s@),
{
    let c = chars_of(s);
    let n = c.len();
    if n == 0 {
        return None;
    }
    let mut start: usize = 0;
    let mut negative = false;
    if c[0] == '-' {
        negative = true;
        start = 1;
    } else if c[0] == '+' {
        start = 1;
    }
    if start == n {
        proof {
            assert(c@.drop_first().len() == 0);
        }
        return None;
    }
    let ghost body = c@.subrange(start as int, n as int);
    assert(start == 1 ==> body =~= c@.drop_first());
    assert(start == 0 ==> body =~= c@);
    let mut acc: u64 = 0;
    let mut i: usize = start;
    while i < n
        invariant
            c@ == s@,
            n == c@.len(),
            start <= i <= n,
            body == c@.subrange(start as int, n as int),
            start == 1 ==> body == c@.drop_first(),
            start == 0 ==> body == c@,
            (start == 1) == (c@[0] == '-' || c@[0] == '+'),
            negative == (c@[0] == '-'),
            forall|j: int| start <= j < i ==> is_digit(#[trigger] c@[j]),
            acc as int == capped(digits_value(c@.subrange(start as int, i as int))),
        decreases n - i,
    {
        let ch = c[i];
        if !('0' <= ch && ch <= '9') {
            proof {
                assert(body[i - start] == ch);
                assert(!is_digit_run(body));
            }
            return None;
        }
        let d: u64 = (ch as u32 - 48) as u64;
        let next: u64 = acc * 10 + d;
        proof {
            let prev = c@.subrange(start as int, i as int);
            let cur = c@.subrange(start as int, i + 1);
            assert(cur.drop_last() =~= prev);
            assert(cur.last() == ch);
            assert forall|j: int| 0 <= j < prev.len() implies is_digit(#[trigger] prev[j]) by {
                assert(prev[j] == c@[start + j]);
            }
            lemma_digits_value_nonneg(prev);
            lemma_cap_step(digits_value(prev), d as int);
        }
        acc = if next > DIGITS_CAP {
            DIGITS_CAP
        } else {
            next
        };
        i = i + 1;
    }
    proof {
        assert(c@.subrange(start as int, n as int) == body);
        assert forall|j: int| 0 <= j < body.len() implies is_digit(#[trigger] body[j]) by {
            assert(body[j] == c@[start + j]);
        }
        lemma_digits_value_nonneg(body);
    }
    if negative {
        if acc <= 0x8000_0000 {
            let w: i64 = -(acc as i64);
            Some(w as i32)
        } else {
            None
        }
    } else {
        if acc <= 0x7fff_ffff {
            Some(acc as i32)
        } else {
            None
        }
    }
}

} // verus!
