//! Decimal reading and writing of integers.
use vstd::prelude::*;

use crate::text::{
    all_digits, char_is_digit, digit_char, digit_to_char, digit_val, digits_of, is_digit, padded,
    parse_unsigned, push_char, value_of, zeros,
};

verus! {

/// A digit character maps back to its digit.
pub proof fn lemma_digit_roundtrip(d: int)
    requires
        0 <= d < 10,
    ensures
        digit_val(digit_char(d)) == d,
        is_digit(digit_char(d)),
{
    assert((d + ('0' as int)) as char as int == d + ('0' as int));
}

/// `digits_of` writes only digits, at least one of them, and reads back as
/// the number it was written from.
pub proof fn lemma_digits_of(n: nat)
    ensures
        value_of(digits_of(n)) == n,
        all_digits(digits_of(n)),
        digits_of(n).len() >= 1,
        n < 10 ==> digits_of(n).len() == 1,
        n >= 10 ==> digits_of(n)[0] != '0',
        n < 10 ==> digits_of(n)[0] == digit_char(n as int),
    decreases n,
{
    if n < 10 {
        lemma_digit_roundtrip(n as int);
        let s = digits_of(n);
        assert(s.drop_last() =~= Seq::<char>::empty());
        assert(value_of(s) == value_of(s.drop_last()) * 10 + digit_val(s.last()));
    } else {
        lemma_digits_of(n / 10);
        lemma_digit_roundtrip((n % 10) as int);
        let s = digits_of(n);
        let p = digits_of(n / 10);
        assert(s.drop_last() =~= p);
        assert(value_of(s) == value_of(p) * 10 + digit_val(s.last()));
        assert(all_digits(s)) by {
            assert forall|i: int| 0 <= i < s.len() implies is_digit(#[trigger] s[i]) by {
                if i < p.len() {
                    assert(s[i] == p[i]);
                }
            }
        }
        assert(s[0] == p[0]);
        if n / 10 < 10 {
            assert(n / 10 >= 1);
            lemma_digit_roundtrip((n / 10) as int);
            assert(p[0] == digit_char((n / 10) as int));
        }
    }
}

/// Reading a longer digit string never gives a smaller number.
pub proof fn lemma_value_of_prefix(s: Seq<char>, i: int)
    requires
        0 <= i <= s.len(),
        all_digits(s),
    ensures
        0 <= value_of(s.take(i)) <= value_of(s),
    decreases s.len() - i,
{
    if i == s.len() {
        assert(s.take(i) == s);
        lemma_value_of_nonneg(s);
    } else {
        lemma_value_of_prefix(s, i + 1);
        let t = s.take(i + 1);
        assert(t.drop_last() == s.take(i));
        assert(is_digit(s[i]));
        assert(t.last() == s[i]);
        lemma_value_of_nonneg(s.take(i));
    }
}

/// Digit strings have non-negative values.
pub proof fn lemma_value_of_nonneg(s: Seq<char>)
    requires
        all_digits(s),
    ensures
        value_of(s) >= 0,
    decreases s.len(),
{
    if s.len() > 0 {
        assert(all_digits(s.drop_last())) by {
            assert forall|i: int| 0 <= i < s.drop_last().len() implies is_digit(
                #[trigger] s.drop_last()[i],
            ) by {
                assert(s.drop_last()[i] == s[i]);
            }
        }
        lemma_value_of_nonneg(s.drop_last());
        assert(is_digit(s.last()));
    }
}

/// Appends the decimal digits of `n` to `s`.
pub fn push_digits(s: &mut String, n: u64)
    ensures
        final(s)@ == old(s)@ + digits_of(n as nat),
    decreases n,
{
    if n >= 10 {
        push_digits(s, n / 10);
    }
    push_char(s, digit_to_char(n % 10));
    proof {
        if n < 10 {
            assert(digits_of(n as nat) == seq![digit_char(n as int)]);
        } else {
            assert(digits_of(n as nat) == digits_of((n / 10) as nat).push(
                digit_char((n % 10) as int),
            ));
        }
    }
}

/// Appends `count` zero characters to `s`.
pub fn push_zeros(s: &mut String, count: u64)
    ensures
        final(s)@ == old(s)@ + zeros(count as int),
{
    let mut i: u64 = 0;
    while i < count
        invariant
            i <= count,
            s@ == old(s)@ + zeros(i as int),
        decreases count - i,
    {
        push_char(s, '0');
        i += 1;
        proof {
            assert(zeros(i as int) =~= zeros(i - 1).push('0'));
        }
    }
}

/// Number of decimal digits of `n`.
pub fn digit_count(n: u64) -> (r: u64)
    ensures
        r == digits_of(n as nat).len(),
        1 <= r,
        r <= (if n == 0 { 1 } else { n }),
    decreases n,
{
    if n < 10 {
        1
    } else {
        let r = digit_count(n / 10);
        proof {
            assert(digits_of(n as nat).len() == digits_of((n / 10) as nat).len() + 1);
        }
        r + 1
    }
}

/// Appends `n` in decimal, zero-padded to `width` with the sign counted
/// in the width.
pub fn push_padded(s: &mut String, n: i64, width: u64)
    ensures
        final(s)@ == old(s)@ + padded(n as int, width as int),
{
    if n < 0 {
        let magnitude: u64 = ((-(n + 1)) as u64) + 1;
        assert(magnitude == -(n as int));
        push_char(s, '-');
        let d = digit_count(magnitude);
        if width > d && width - d > 1 {
            push_zeros(s, width - 1 - d);
        } else {
            push_zeros(s, 0);
        }
        push_digits(s, magnitude);
        proof {
            let dd = digits_of(magnitude as nat);
            if width <= d + 1 {
                assert(zeros(width - 1 - dd.len()) =~= zeros(0));
            }
            assert(old(s)@.push('-') + zeros(width - 1 - dd.len()) + dd =~= old(s)@ + (seq!['-']
                + zeros(width - 1 - dd.len()) + dd));
        }
    } else {
        let magnitude = n as u64;
        let d = digit_count(magnitude);
        if width > d {
            push_zeros(s, width - d);
        } else {
            push_zeros(s, 0);
        }
        push_digits(s, magnitude);
        proof {
            let dd = digits_of(magnitude as nat);
            if width <= d {
                assert(zeros(width - dd.len()) =~= zeros(0));
            }
            assert(old(s)@ + zeros(width - dd.len()) + dd =~= old(s)@ + (zeros(width - dd.len())
                + dd));
        }
    }
}

/// Reads `v[from..to]` as an unsigned integer the way `from_str` does for
/// an integer type whose largest value is `max`.
pub fn parse_unsigned_range(v: &Vec<char>, from: usize, to: usize, max: u64) -> (r: Option<u64>)
    requires
        from <= to <= v@.len(),
        max >= 9,
    ensures
        ({
            let p = parse_unsigned(v@.subrange(from as int, to as int));
            match r {
                Some(x) => p == Some(x as int) && x <= max,
                None => p is None || p->0 > max,
            }
        }),
{
    let ghost s = v@.subrange(from as int, to as int);
    let mut start = from;
    if from < to && v[from] == '+' {
        start = from + 1;
    }
    let ghost body = v@.subrange(start as int, to as int);
    proof {
        if from < to && v@[from as int] == '+' {
            assert(s[0] == '+');
            assert(body =~= s.drop_first());
        } else {
            assert(body =~= s);
        }
    }
    if start == to {
        return None;
    }
    let mut acc: u64 = 0;
    let mut i = start;
    while i < to
        invariant
            start <= i <= to,
            to <= v@.len(),
            body == v@.subrange(start as int, to as int),
            body.len() > 0,
            parse_unsigned(v@.subrange(from as int, to as int)) == (if all_digits(body) {
                Some(value_of(body))
            } else {
                None::<int>
            }),
            all_digits(body.take(i - start)),
            acc == value_of(body.take(i - start)),
            acc <= max,
            max >= 9,
        decreases to - i,
    {
        let c = v[i];
        proof {
            assert(c == body[i - start]);
        }
        if !char_is_digit(c) {
            proof {
                assert(!all_digits(body));
            }
            return None;
        }
        let d = (c as u64) - 48;
        proof {
            let t = body.take(i - start + 1);
            assert(t.drop_last() =~= body.take(i - start));
            assert(t.last() == c);
            assert(value_of(t) == acc * 10 + d);
            assert(all_digits(t)) by {
                assert forall|k: int| 0 <= k < t.len() implies is_digit(#[trigger] t[k]) by {
                    if k < t.len() - 1 {
                        assert(t[k] == body.take(i - start)[k]);
                    }
                }
            }
        }
        if acc > (max - d) / 10 {
            proof {
                let t = body.take(i - start + 1);
                assert(acc * 10 + d > max) by (nonlinear_arith)
                    requires
                        acc > (max - d) / 10,
                        d <= max,
                {
                }
                if all_digits(body) {
                    lemma_value_of_prefix(body, i - start + 1);
                }
            }
            return None;
        }
        proof {
            assert(acc * 10 + d <= max) by (nonlinear_arith)
                requires
                    acc <= (max - d) / 10,
                    d <= max,
            {
            }
        }
        acc = acc * 10 + d;
        i += 1;
    }
    proof {
        assert(body.take(to - start) == body);
    }
    Some(acc)
}

/// Leading zeros do not change the value of a digit string.
pub proof fn lemma_value_of_leading_zeros(k: int, d: Seq<char>)
    ensures
        value_of(zeros(k) + d) == value_of(d),
    decreases d.len(),
{
    if d.len() == 0 {
        assert(zeros(k) + d =~= zeros(k));
        lemma_value_of_zeros(k);
    } else {
        lemma_value_of_leading_zeros(k, d.drop_last());
        assert((zeros(k) + d).drop_last() =~= zeros(k) + d.drop_last());
    }
}

/// A string of zeros reads as zero.
pub proof fn lemma_value_of_zeros(k: int)
    ensures
        value_of(zeros(k)) == 0,
    decreases (if k < 0 { 0 } else { k }),
{
    if k > 0 {
        lemma_value_of_zeros(k - 1);
        assert(zeros(k).drop_last() =~= zeros(k - 1));
        assert(digit_val('0') == 0);
    } else {
        assert(zeros(k) =~= Seq::<char>::empty());
    }
}

/// A non-negative number padded with zeros is a non-empty digit string that
/// reads back as the number.
pub proof fn lemma_padded_nonneg(n: int, width: int)
    requires
        n >= 0,
    ensures
        all_digits(padded(n, width)),
        padded(n, width).len() >= 1,
        value_of(padded(n, width)) == n,
{
    let d = digits_of(n as nat);
    lemma_digits_of(n as nat);
    let z = zeros(width - d.len());
    lemma_value_of_leading_zeros(width - d.len(), d);
    let p = padded(n, width);
    assert(p == z + d);
    assert forall|i: int| 0 <= i < p.len() implies is_digit(#[trigger] p[i]) by {
        if i < z.len() {
            assert(p[i] == '0');
        } else {
            assert(p[i] == d[i - z.len()]);
        }
    }
}

} // verus!
