//! Decimal notation of integers: writing an `i32` as `to_string` does and
//! reading one as `str::parse::<i32>` does.

use vstd::prelude::*;

verus! {

/// The ASCII digit for `d` in `0..10`.
pub open spec fn digit_char(d: int) -> char {
    (48 + d) as char
}

/// Whether `c` is an ASCII digit.
pub open spec fn is_digit(c: char) -> bool {
    '0' <= c && c <= '9'
}

/// The value of an ASCII digit.
pub open spec fn digit_value(c: char) -> int {
    (c as int) - 48
}

/// The decimal digits of `n`, most significant first, without leading zeros.
pub open spec fn nat_digits(n: nat) -> Seq<char>
    decreases n,
{
    if n < 10 {
        seq![digit_char(n as int)]
    } else {
        nat_digits(n / 10).push(digit_char((n % 10) as int))
    }
}

/// The decimal notation of `n`, with a leading `-` when it is negative.
pub open spec fn decimal(n: int) -> Seq<char> {
    if n < 0 {
        seq!['-'] + nat_digits((-n) as nat)
    } else {
        nat_digits(n as nat)
    }
}

/// Every character of `s` is an ASCII digit.
pub open spec fn all_digits(s: Seq<char>) -> bool {
    forall|i: int| 0 <= i < s.len() ==> is_digit(#[trigger] s[i])
}

/// The value of a sequence of ASCII digits.
pub open spec fn digits_value(s: Seq<char>) -> int
    decreases s.len(),
{
    if s.len() == 0 {
        0
    } else {
        digits_value(s.drop_last()) * 10 + digit_value(s.last())
    }
}

/// The decimal digits of `n`.
fn nat_digits_exec(n: u64) -> (r: Vec<char>)
    ensures
        r@ == nat_digits(n as nat),
    decreases n,
{
    let d: u8 = (n % 10) as u8;
    let c = (48u8 + d) as char;
    if n < 10 {
        let mut r: Vec<char> = Vec::new();
        r.push(c);
        r
    } else {
        let mut r = nat_digits_exec(n / 10);
        r.push(c);
        r
    }
}

/// The decimal notation of `n`, as `i32::to_string` writes it.
pub fn decimal_chars(n: i32) -> (r: Vec<char>)
    ensures
        r@ == decimal(n as int),
{
    if n < 0 {
        let m: i64 = n as i64;
        let digits = nat_digits_exec((-m) as u64);
        let mut r: Vec<char> = Vec::new();
        r.push('-');
        let len = digits.len();
        for i in 0..len
            invariant
                len == digits@.len(),
                r@ == seq!['-'] + digits@.take(i as int),
        {
            r.push(digits[i]);
            assert(seq!['-'] + digits@.take(i + 1) == (seq!['-'] + digits@.take(i as int)).push(
                digits@[i as int],
            ));
        }
        assert(digits@.take(len as int) == digits@);
        r
    } else {
        nat_digits_exec(n as u64)
    }
}

/// Ten to the power `n`.
pub open spec fn pow10(n: nat) -> int
    decreases n,
{
    if n == 0 {
        1
    } else {
        10 * pow10((n - 1) as nat)
    }
}

/// A sequence of `n` digits is worth less than ten to the power `n`.
pub proof fn lemma_digits_value_bound(s: Seq<char>)
    requires
        all_digits(s),
    ensures
        0 <= digits_value(s) < pow10(s.len()),
    decreases s.len(),
{
    if s.len() > 0 {
        let p = s.drop_last();
        assert forall|i: int| 0 <= i < p.len() implies is_digit(#[trigger] p[i]) by {
            assert(p[i] == s[i]);
        }
        lemma_digits_value_bound(p);
        assert(is_digit(s[s.len() - 1]));
        assert(pow10(s.len()) == 10 * pow10(p.len()));
    }
}

/// Ten to the power of at most nine is at most a billion.
proof fn lemma_pow10_small(n: nat)
    requires
        n <= 9,
    ensures
        1 <= pow10(n) <= 1000000000,
    decreases n,
{
    if n > 0 {
        lemma_pow10_small((n - 1) as nat);
        if n == 9 {
            reveal_with_fuel(pow10, 10);
        } else {
            assert(pow10(n) == 10 * pow10((n - 1) as nat));
            lemma_pow10_upto(n);
        }
    }
}

/// Ten to the power `n`, for `n` below nine, is at most a hundred million.
proof fn lemma_pow10_upto(n: nat)
    requires
        n <= 8,
    ensures
        pow10(n) <= 100000000,
    decreases n,
{
    if n == 8 {
        reveal_with_fuel(pow10, 9);
    } else {
        lemma_pow10_mono(n, 8);
        reveal_with_fuel(pow10, 9);
    }
}

/// Powers of ten grow with the exponent.
proof fn lemma_pow10_mono(m: nat, n: nat)
    requires
        m <= n,
    ensures
        1 <= pow10(m) <= pow10(n),
    decreases n,
{
    if n > 0 {
        if m < n {
            lemma_pow10_mono(m, (n - 1) as nat);
        } else {
            lemma_pow10_mono((m - 1) as nat, (n - 1) as nat);
        }
    }
}

/// The value of at most nine ASCII digits.
pub fn digits_to_i32(t: &[char]) -> (r: i32)
    requires
        all_digits(t@),
        t@.len() <= 9,
    ensures
        r == digits_value(t@),
{
    let n = t.len();
    let mut acc: i32 = 0;
    proof {
        lemma_digits_value_bound(t@);
        lemma_pow10_mono(t@.len(), 9);
        reveal_with_fuel(pow10, 10);
    }
    for i in 0..n
        invariant
            n == t@.len() <= 9,
            all_digits(t@),
            acc == digits_value(t@.take(i as int)),
            pow10(9) == 1000000000,
    {
        let ghost next = t@.take(i + 1);
        assert(next.drop_last() == t@.take(i as int));
        assert(next.last() == t@[i as int]);
        assert(is_digit(t@[i as int]));
        assert forall|j: int| 0 <= j < next.len() implies is_digit(#[trigger] next[j]) by {
            assert(next[j] == t@[j]);
        }
        proof {
            lemma_digits_value_bound(next);
            lemma_pow10_mono(next.len(), 9);
        }
        let c = t[i];
        assert(48 <= (c as u32) <= 57);
        let d: i32 = (c as u32 - 48) as i32;
        assert(acc * 10 + d == digits_value(next));
        acc = acc * 10 + d;
    }
    assert(t@.take(n as int) == t@);
    acc
}

/// The decimal digits of a number are ASCII digits, at least one.
pub proof fn lemma_nat_digits_are_digits(n: nat)
    ensures
        nat_digits(n).len() > 0,
        all_digits(nat_digits(n)),
    decreases n,
{
    if n >= 10 {
        lemma_nat_digits_are_digits(n / 10);
        let p = nat_digits(n / 10);
        let d = digit_char((n % 10) as int);
        assert(is_digit(d));
        assert forall|i: int| 0 <= i < p.push(d).len() implies is_digit(#[trigger] p.push(d)[i]) by {
            if i < p.len() {
                assert(p.push(d)[i] == p[i]);
            }
        }
    } else {
        assert(is_digit(digit_char(n as int)));
    }
}

} // verus!
