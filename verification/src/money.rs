//! Signed monetary amounts in integer minor units, with their terminal text
//! forms.
use vstd::prelude::*;

use crate::digits::{
    lemma_digits_of, lemma_padded_nonneg, lemma_value_of_nonneg, parse_unsigned_range, push_digits,
    push_padded,
};
use crate::error::{BudgetError, BudgetErrorView};
use crate::text::{
    all_digits, char_is_digit, digit_val, digits_of, has_char, is_digit, owned, padded,
    parse_unsigned, push_char, push_str, trim, trimmed_chars, value_of,
};

verus! {

/// Signed monetary amount stored as integer minor units.
#[derive(Clone, Copy, Debug, PartialEq, Eq, PartialOrd, Ord, Hash)]
pub struct Money(i64);

impl View for Money {
    type V = int;

    closed spec fn view(&self) -> int {
        self.0 as int
    }
}

impl Default for Money {
    fn default() -> (r: Self)
        ensures
            r@ == 0,
    {
        Money(0)
    }
}

/// Every amount fits the `i64` range.
pub proof fn lemma_money_range(a: Money)
    ensures
        i64::MIN <= a@ <= i64::MAX,
{
}

impl Money {
    /// The zero amount.
    pub fn zero() -> (r: Self)
        ensures
            r@ == 0,
    {
        Money(0)
    }

    /// Creates a monetary amount from integer minor units.
    pub fn from_minor(minor: i64) -> (r: Self)
        ensures
            r@ == minor as int,
    {
        Money(minor)
    }

    /// Returns the raw integer minor units backing this amount.
    pub fn minor(self) -> (r: i64)
        ensures
            r as int == self@,
    {
        self.0
    }

    /// Reports whether the amount is greater than or equal to zero.
    pub fn is_non_negative(self) -> (r: bool)
        ensures
            r == (self@ >= 0),
    {
        self.0 >= 0
    }

    /// Returns the absolute value.
    pub fn abs(self) -> (r: Self)
        requires
            self@ != i64::MIN as int,
        ensures
            r@ == (if self@ < 0 { -self@ } else { self@ }),
    {
        if self.0 < 0 {
            Money(-self.0)
        } else {
            self
        }
    }

    /// Sum of two amounts.
    pub fn plus(self, rhs: Self) -> (r: Self)
        requires
            i64::MIN <= self@ + rhs@ <= i64::MAX,
        ensures
            r@ == self@ + rhs@,
    {
        Money(self.0 + rhs.0)
    }

    /// Difference of two amounts.
    pub fn minus(self, rhs: Self) -> (r: Self)
        requires
            i64::MIN <= self@ - rhs@ <= i64::MAX,
        ensures
            r@ == self@ - rhs@,
    {
        Money(self.0 - rhs.0)
    }

    /// The amount with its sign flipped.
    pub fn negated(self) -> (r: Self)
        requires
            self@ != i64::MIN as int,
        ensures
            r@ == -self@,
    {
        Money(-self.0)
    }

    /// Formats the amount for terminal display.
    pub fn format(self) -> (r: String)
        requires
            self@ != i64::MIN as int,
        ensures
            r@ == money_text(self@),
    {
        format_minor_units(self.0)
    }
}

/// The GBP display text of an amount: optional `-`, `£`, whole pounds, `.`
/// and two pence digits.
pub open spec fn money_text(minor: int) -> Seq<char> {
    let magnitude = if minor < 0 { -minor } else { minor };
    (if minor < 0 { seq!['-'] } else { Seq::<char>::empty() }) + seq!['£'] + digits_of(
        (magnitude / 100) as nat,
    ) + seq!['.'] + padded(magnitude % 100, 2)
}

/// Format minor units as a GBP-style display string.
pub fn format_minor_units(minor: i64) -> (r: String)
    requires
        minor != i64::MIN,
    ensures
        r@ == money_text(minor as int),
{
    let mut s = String::new();
    if minor < 0 {
        push_char(&mut s, '-');
    }
    let absolute: i64 = if minor < 0 { -minor } else { minor };
    push_char(&mut s, '£');
    push_digits(&mut s, (absolute / 100) as u64);
    push_char(&mut s, '.');
    push_padded(&mut s, absolute % 100, 2);
    proof {
        assert(s@ =~= money_text(minor as int));
    }
    s
}

/// Characters that only decorate a typed amount: currency sign, thousands
/// separators and spacing.
pub open spec fn is_visual(c: char) -> bool {
    c == '£' || c == ',' || c == ' ' || c == '_'
}

/// `s` without its decoration characters.
pub open spec fn strip_visual(s: Seq<char>) -> Seq<char>
    decreases s.len(),
{
    if s.len() == 0 {
        s
    } else if is_visual(s.last()) {
        strip_visual(s.drop_last())
    } else {
        strip_visual(s.drop_last()).push(s.last())
    }
}

/// Position of the first `c` in `s`, or `s.len()` when there is none.
pub open spec fn first_index(s: Seq<char>, c: char) -> int
    decreases s.len(),
{
    if s.len() == 0 {
        0
    } else if s[0] == c {
        0
    } else {
        1 + first_index(s.drop_first(), c)
    }
}

/// Value of up to two pence digits (`"5"` is fifty pence).
pub open spec fn pence_value(p: Seq<char>) -> int {
    if p.len() == 0 {
        0
    } else if p.len() == 1 {
        digit_val(p[0]) * 10
    } else {
        value_of(p)
    }
}

/// Minor units of an unsigned amount written as `POUNDS` or
/// `POUNDS.PENCE`, when it is well formed and fits in `i64`.
pub open spec fn amount_value(d: Seq<char>) -> Option<int> {
    let i = first_index(d, '.');
    if i == d.len() {
        if d.len() > 0 && all_digits(d) && value_of(d) * 100 <= i64::MAX {
            Some(value_of(d) * 100)
        } else {
            None
        }
    } else {
        let pounds = d.take(i);
        let pence = d.skip(i + 1);
        if pounds.len() > 0 && all_digits(pounds) && !has_char(pence, '.') && all_digits(pence)
            && pence.len() <= 2 && value_of(pounds) * 100 + pence_value(pence) <= i64::MAX {
            Some(value_of(pounds) * 100 + pence_value(pence))
        } else {
            None
        }
    }
}

/// The amount a money field holds, when `s` is an accepted money text.
pub open spec fn money_value(s: Seq<char>, allow_negative: bool) -> Option<int> {
    let z = strip_visual(trim(s));
    if z.len() == 0 {
        None
    } else if z[0] == '-' {
        if !allow_negative {
            None
        } else {
            match amount_value(z.drop_first()) {
                Some(v) => Some(-v),
                None => None,
            }
        }
    } else if z[0] == '+' {
        amount_value(z.drop_first())
    } else {
        amount_value(z)
    }
}

/// Where the first occurrence of a character stands.
pub proof fn lemma_first_index(s: Seq<char>, c: char)
    ensures
        0 <= first_index(s, c) <= s.len(),
        first_index(s, c) < s.len() ==> s[first_index(s, c)] == c,
        forall|k: int| 0 <= k < first_index(s, c) ==> s[k] != c,
        first_index(s, c) == s.len() <==> !has_char(s, c),
    decreases s.len(),
{
    if s.len() > 0 && s[0] != c {
        lemma_first_index(s.drop_first(), c);
        assert forall|k: int| 0 <= k < first_index(s, c) implies s[k] != c by {
            if k > 0 {
                assert(s[k] == s.drop_first()[k - 1]);
            }
        }
        if has_char(s, c) {
            let k = choose|k: int| 0 <= k < s.len() && s[k] == c;
            assert(s.drop_first()[k - 1] == c);
        }
        if has_char(s.drop_first(), c) {
            let k = choose|k: int| 0 <= k < s.drop_first().len() && s.drop_first()[k] == c;
            assert(s[k + 1] == c);
        }
    }
}

/// Parse a terminal-edited money field into integer minor units.
///
/// Accepts a leading `£`, thousands separators, spacing, an optional sign
/// and an optional decimal point with up to two pence digits.
pub fn parse_money_input(input: &str, allow_negative: bool) -> (r: Result<Money, BudgetError>)
    ensures
        match r {
            Ok(m) => money_value(input@, allow_negative) == Some(m@),
            Err(e) => money_value(input@, allow_negative) is None && e@
                == BudgetErrorView::InvalidMoney(input@),
        },
{
    let trimmed = trimmed_chars(input);
    // Drop purely visual formatting so pasted and typed values both parse.
    let mut z: Vec<char> = Vec::new();
    let mut i: usize = 0;
    while i < trimmed.len()
        invariant
            i <= trimmed@.len(),
            z@ == strip_visual(trimmed@.take(i as int)),
        decreases trimmed.len() - i,
    {
        let c = trimmed[i];
        proof {
            let t = trimmed@.take(i + 1);
            assert(t.drop_last() == trimmed@.take(i as int));
            assert(t.last() == c);
        }
        if !(c == '£' || c == ',' || c == ' ' || c == '_') {
            z.push(c);
        }
        i += 1;
    }
    proof {
        assert(trimmed@.take(trimmed@.len() as int) == trimmed@);
    }
    if z.len() == 0 {
        return Err(BudgetError::InvalidMoney(owned(input)));
    }
    let mut start: usize = 0;
    let negative = z[0] == '-';
    if negative {
        if !allow_negative {
            return Err(BudgetError::InvalidMoney(owned(input)));
        }
        start = 1;
    } else if z[0] == '+' {
        start = 1;
    }
    let ghost d = z@.skip(start as int);
    proof {
        if start == 1 {
            assert(d == z@.drop_first());
        } else {
            assert(d == z@);
        }
    }
    match amount_from(&z, start) {
        Some(v) => {
            if negative {
                Ok(Money(-v))
            } else {
                Ok(Money(v))
            }
        },
        None => Err(BudgetError::InvalidMoney(owned(input))),
    }
}

/// Reads the unsigned amount `z[start..]`.
#[verifier::loop_isolation(false)]
fn amount_from(z: &Vec<char>, start: usize) -> (r: Option<i64>)
    requires
        start <= z@.len(),
    ensures
        match r {
            Some(v) => amount_value(z@.skip(start as int)) == Some(v as int) && v >= 0,
            None => amount_value(z@.skip(start as int)) is None,
        },
{
    let ghost d = z@.skip(start as int);
    let n = z.len();
    // Find the first decimal point.
    let mut dot = start;
    while dot < n && z[dot] != '.'
        invariant
            start <= dot <= n,
            n == z@.len(),
            forall|k: int| start <= k < dot ==> z@[k] != '.',
        decreases n - dot,
    {
        dot += 1;
    }
    proof {
        lemma_first_index(d, '.');
        let fi = first_index(d, '.');
        if dot < n {
            assert(d[dot - start] == '.');
            if fi < dot - start {
                assert(d[fi] == z@[start + fi]);
            }
            assert(fi == dot - start);
        } else {
            if fi < d.len() {
                assert(d[fi] == z@[start + fi]);
            }
            assert(fi == d.len());
        }
    }
    if dot == n {
        // No pence part.
        if dot == start {
            return None;
        }
        let mut k = start;
        while k < n
            invariant
                start <= k <= n,
                n == z@.len(),
                forall|j: int| start <= j < k ==> is_digit(#[trigger] z@[j]),
            decreases n - k,
        {
            if !char_is_digit(z[k]) {
                proof {
                    assert(!is_digit(d[k - start]));
                }
                return None;
            }
            k += 1;
        }
        proof {
            assert(all_digits(d)) by {
                assert forall|j: int| 0 <= j < d.len() implies is_digit(#[trigger] d[j]) by {
                    assert(d[j] == z@[start + j]);
                }
            }
            assert(d.len() > 0 && d[0] != '+');
            assert(z@.subrange(start as int, n as int) == d);
        }
        let pounds = parse_unsigned_range(z, start, n, i64::MAX as u64);
        match pounds {
            None => {
                return None;
            },
            Some(p) => {
                if p > (i64::MAX as u64) / 100 {
                    return None;
                }
                return Some((p * 100) as i64);
            },
        }
    }
    // POUNDS.PENCE
    let ghost pounds_s = d.take(dot - start);
    let ghost pence_s = d.skip(dot - start + 1);
    proof {
        assert(pounds_s == z@.subrange(start as int, dot as int));
        assert(pence_s == z@.subrange(dot + 1, n as int));
    }
    if dot == start {
        return None;
    }
    let mut k = start;
    while k < dot
        invariant
            start <= k <= dot,
            dot < n,
            n == z@.len(),
            forall|j: int| start <= j < k ==> is_digit(#[trigger] z@[j]),
        decreases dot - k,
    {
        if !char_is_digit(z[k]) {
            proof {
                assert(!is_digit(pounds_s[k - start]));
            }
            return None;
        }
        k += 1;
    }
    proof {
        assert(all_digits(pounds_s)) by {
            assert forall|j: int| 0 <= j < pounds_s.len() implies is_digit(#[trigger] pounds_s[j]) by {
                assert(pounds_s[j] == z@[start + j]);
            }
        }
    }
    let pence_len = n - dot - 1;
    let mut m = dot + 1;
    while m < n
        invariant
            dot + 1 <= m <= n,
            n == z@.len(),
            forall|j: int| dot + 1 <= j < m ==> is_digit(#[trigger] z@[j]),
        decreases n - m,
    {
        if !char_is_digit(z[m]) {
            proof {
                assert(!is_digit(pence_s[m - dot - 1]));
                if z@[m as int] == '.' {
                    assert(pence_s[m - dot - 1] == '.');
                }
            }
            return None;
        }
        m += 1;
    }
    proof {
        assert(all_digits(pence_s)) by {
            assert forall|j: int| 0 <= j < pence_s.len() implies is_digit(#[trigger] pence_s[j]) by {
                assert(pence_s[j] == z@[dot + 1 + j]);
            }
        }
        if has_char(pence_s, '.') {
            let j = choose|j: int| 0 <= j < pence_s.len() && pence_s[j] == '.';
            assert(is_digit(pence_s[j]));
        }
    }
    if pence_len > 2 {
        return None;
    }
    let pence: i64 = if pence_len == 0 {
        0
    } else if pence_len == 1 {
        ((z[dot + 1] as u32) - 48) as i64 * 10
    } else {
        ((z[dot + 1] as u32) - 48) as i64 * 10 + ((z[dot + 2] as u32) - 48) as i64
    };
    proof {
        if pence_len == 1 {
            assert(pence_s[0] == z@[dot + 1]);
        } else if pence_len == 2 {
            assert(pence_s[0] == z@[dot + 1]);
            assert(pence_s[1] == z@[dot + 2]);
            assert(pence_s.drop_last() =~= seq![pence_s[0]]);
            assert(seq![pence_s[0]].drop_last() =~= Seq::<char>::empty());
            let one = seq![pence_s[0]];
            assert(one.last() == pence_s[0]);
            assert(value_of(one.drop_last()) == 0);
            assert(value_of(one) == digit_val(pence_s[0]));
        }
        assert(pounds_s.len() > 0 && pounds_s[0] != '+');
    }
    let pounds = parse_unsigned_range(z, start, dot, i64::MAX as u64);
    match pounds {
        None => {
            proof {
                lemma_value_of_nonneg(pence_s);
            }
            None
        },
        Some(p) => {
            if p > ((i64::MAX - pence) as u64) / 100 {
                return None;
            }
            Some((p * 100) as i64 + pence)
        },
    }
}

/// Dropping decoration distributes over concatenation.
proof fn lemma_strip_visual_concat(a: Seq<char>, b: Seq<char>)
    ensures
        strip_visual(a + b) == strip_visual(a) + strip_visual(b),
    decreases b.len(),
{
    if b.len() == 0 {
        assert(a + b =~= a);
        assert(strip_visual(a) + strip_visual(b) =~= strip_visual(a));
    } else {
        lemma_strip_visual_concat(a, b.drop_last());
        assert((a + b).drop_last() =~= a + b.drop_last());
        assert((a + b).last() == b.last());
        if !is_visual(b.last()) {
            assert(strip_visual(a) + strip_visual(b.drop_last()).push(b.last()) =~= (strip_visual(a)
                + strip_visual(b.drop_last())).push(b.last()));
        }
    }
}

/// Text without decoration is left as it is.
proof fn lemma_strip_visual_plain(x: Seq<char>)
    requires
        forall|i: int| 0 <= i < x.len() ==> !is_visual(#[trigger] x[i]),
    ensures
        strip_visual(x) == x,
    decreases x.len(),
{
    if x.len() > 0 {
        lemma_strip_visual_plain(x.drop_last());
        assert(!is_visual(x[x.len() - 1]));
        assert(x.drop_last().push(x.last()) =~= x);
    }
}

/// The first `c` of a text that starts with a `c`-free part lies after it.
proof fn lemma_first_index_after(p: Seq<char>, rest: Seq<char>, c: char)
    requires
        forall|i: int| 0 <= i < p.len() ==> p[i] != c,
    ensures
        first_index(p + rest, c) == p.len() + first_index(rest, c),
    decreases p.len(),
{
    if p.len() > 0 {
        assert((p + rest).drop_first() =~= p.drop_first() + rest);
        assert((p + rest)[0] == p[0]);
        lemma_first_index_after(p.drop_first(), rest, c);
    } else {
        assert(p + rest =~= rest);
    }
}

/// The unsigned amount text `pounds.pence` of a magnitude reads back as it.
proof fn lemma_amount_text(magnitude: int)
    requires
        0 <= magnitude <= i64::MAX,
    ensures
        amount_value(digits_of((magnitude / 100) as nat) + seq!['.'] + padded(magnitude % 100, 2))
            == Some(magnitude),
        all_digits(digits_of((magnitude / 100) as nat)),
{
    let d = digits_of((magnitude / 100) as nat);
    let p = padded(magnitude % 100, 2);
    let t = d + seq!['.'] + p;
    lemma_digits_of((magnitude / 100) as nat);
    lemma_digits_of((magnitude % 100) as nat);
    lemma_padded_nonneg(magnitude % 100, 2);
    let pd = digits_of((magnitude % 100) as nat);
    if (magnitude % 100) >= 10 {
        lemma_digits_of((magnitude % 100 / 10) as nat);
        assert(pd.len() == 2);
    }
    assert(p.len() == 2);
    assert forall|i: int| 0 <= i < d.len() implies d[i] != '.' by {
        assert(is_digit(d[i]));
    }
    assert(t == d + (seq!['.'] + p));
    lemma_first_index_after(d, seq!['.'] + p, '.');
    assert((seq!['.'] + p)[0] == '.');
    assert(first_index(t, '.') == d.len());
    assert(t.take(d.len() as int) =~= d);
    assert(t.skip(d.len() as int + 1) =~= p);
    assert(!has_char(p, '.')) by {
        if has_char(p, '.') {
            let k = choose|k: int| 0 <= k < p.len() && p[k] == '.';
            assert(is_digit(p[k]));
        }
    }
    assert(pence_value(p) == magnitude % 100);
}

/// The display text of an amount, with its currency sign dropped, is its
/// sign followed by `pounds.pence`.
proof fn lemma_money_text_stripped(m: int)
    requires
        i64::MIN < m <= i64::MAX,
    ensures
        ({
            let magnitude = if m < 0 { -m } else { m };
            let sign = if m < 0 { seq!['-'] } else { Seq::<char>::empty() };
            let body = digits_of((magnitude / 100) as nat) + seq!['.'] + padded(magnitude % 100, 2);
            &&& trim(money_text(m)) == money_text(m)
            &&& strip_visual(money_text(m)) == sign + body
        }),
{
    let magnitude = if m < 0 { -m } else { m };
    let sign = if m < 0 { seq!['-'] } else { Seq::<char>::empty() };
    let d = digits_of((magnitude / 100) as nat);
    let p = padded(magnitude % 100, 2);
    let body = d + seq!['.'] + p;
    lemma_digits_of((magnitude / 100) as nat);
    lemma_padded_nonneg(magnitude % 100, 2);
    let t = money_text(m);
    assert(t == sign + seq!['£'] + d + seq!['.'] + p);
    assert(t.last() == p.last());
    assert(is_digit(p[p.len() - 1]));
    assert(crate::text::trim_start(t) == t);
    assert(crate::text::trim_end(t) == t);
    assert forall|i: int| 0 <= i < body.len() implies !is_visual(#[trigger] body[i]) by {
        if i < d.len() {
            assert(is_digit(d[i]));
        } else if i > d.len() {
            assert(body[i] == p[i - d.len() - 1]);
            assert(is_digit(p[i - d.len() - 1]));
        }
    }
    lemma_strip_visual_plain(body);
    lemma_strip_visual_plain(sign);
    assert(strip_visual(seq!['£']) =~= Seq::<char>::empty()) by {
        assert(seq!['£'].drop_last() =~= Seq::<char>::empty());
        assert(strip_visual(Seq::<char>::empty()) == Seq::<char>::empty());
        assert(is_visual(seq!['£'].last()));
        assert(strip_visual(seq!['£']) == strip_visual(seq!['£'].drop_last()));
    }
    assert(t =~= sign + (seq!['£'] + body));
    lemma_strip_visual_concat(sign, seq!['£'] + body);
    lemma_strip_visual_concat(seq!['£'], body);
    assert(strip_visual(t) =~= sign + body);
}

/// Parsing the display text of an amount gives the amount back, whenever
/// the field accepts its sign.
pub proof fn lemma_format_then_parse(m: int, allow_negative: bool)
    requires
        i64::MIN < m <= i64::MAX,
        m >= 0 || allow_negative,
    ensures
        money_value(money_text(m), allow_negative) == Some(m),
{
    let magnitude = if m < 0 { -m } else { m };
    let d = digits_of((magnitude / 100) as nat);
    let body = d + seq!['.'] + padded(magnitude % 100, 2);
    lemma_amount_text(magnitude);
    lemma_money_text_stripped(m);
    lemma_digits_of((magnitude / 100) as nat);
    let z = strip_visual(trim(money_text(m)));
    assert(is_digit(d[0]));
    if m < 0 {
        assert(z == seq!['-'] + body);
        assert(z[0] == '-');
        assert(z.drop_first() =~= body);
    } else {
        assert(z =~= body);
        assert(z[0] == d[0]);
    }
}

/// An amount's text cut after its first pence digit reads back as the
/// amount with its last pence digit dropped and its sign kept, whenever the
/// field accepts that sign.
pub proof fn lemma_text_to_first_pence_digit(m: int, allow_negative: bool)
    requires
        i64::MIN < m <= i64::MAX,
    ensures
        ({
            let magnitude = if m < 0 { -m } else { m };
            let sign = if m < 0 { seq!['-'] } else { Seq::<char>::empty() };
            let t = sign + digits_of((magnitude / 100) as nat) + seq!['.'] + padded(
                magnitude % 100,
                2,
            ).take(1);
            money_value(t, allow_negative) == if m < 0 && !allow_negative {
                None
            } else if m < 0 {
                Some(-(magnitude / 10 * 10))
            } else {
                Some(magnitude / 10 * 10)
            }
        }),
{
    let magnitude = if m < 0 { -m } else { m };
    let sign = if m < 0 { seq!['-'] } else { Seq::<char>::empty() };
    let d = digits_of((magnitude / 100) as nat);
    let q = magnitude % 100;
    let p = padded(q, 2);
    let one = p.take(1);
    let u = d + seq!['.'] + one;
    let t = sign + u;
    lemma_digits_of((magnitude / 100) as nat);
    lemma_digits_of(q as nat);
    lemma_padded_nonneg(q, 2);
    let pd = digits_of(q as nat);
    if q >= 10 {
        lemma_digits_of((q / 10) as nat);
        assert(pd.len() == 2);
    }
    assert(p.len() == 2);
    // The first pence digit is the tens of pence.
    assert(p.drop_last() =~= one);
    assert(value_of(one) == value_of(one.drop_last()) * 10 + digit_val(one.last()));
    assert(one.drop_last() =~= Seq::<char>::empty());
    assert(value_of(p) == value_of(one) * 10 + digit_val(p.last()));
    assert(is_digit(p[1]));
    assert(is_digit(p[0]));
    let tens = digit_val(one[0]);
    assert(0 <= digit_val(p.last()) <= 9);
    assert(tens == q / 10);
    assert((magnitude / 100) * 100 + (q / 10) * 10 == magnitude / 10 * 10) by (nonlinear_arith)
        requires
            magnitude >= 0,
            q == magnitude % 100,
    ;
    // The unsigned part reads back as pounds and tens of pence.
    assert forall|i: int| 0 <= i < d.len() implies d[i] != '.' by {
        assert(is_digit(d[i]));
    }
    assert(u == d + (seq!['.'] + one));
    lemma_first_index_after(d, seq!['.'] + one, '.');
    assert((seq!['.'] + one)[0] == '.');
    assert(first_index(u, '.') == d.len());
    assert(u.take(d.len() as int) =~= d);
    assert(u.skip(d.len() as int + 1) =~= one);
    assert(!has_char(one, '.')) by {
        if has_char(one, '.') {
            let k = choose|k: int| 0 <= k < one.len() && one[k] == '.';
            assert(is_digit(one[k]));
        }
    }
    assert(all_digits(one));
    assert(pence_value(one) == tens * 10);
    assert(value_of(d) * 100 + pence_value(one) <= magnitude) by (nonlinear_arith)
        requires
            magnitude >= 0,
            value_of(d) == magnitude / 100,
            pence_value(one) == (magnitude % 100) / 10 * 10,
    ;
    assert(amount_value(u) == Some(magnitude / 10 * 10));
    // The whole text has nothing to trim or strip.
    assert forall|i: int| 0 <= i < t.len() implies !is_visual(#[trigger] t[i]) && !crate::text::is_whitespace(t[i]) by {
        if i < sign.len() {
            assert(t[i] == '-');
        } else if i < sign.len() + d.len() {
            assert(t[i] == d[i - sign.len()]);
            assert(is_digit(d[i - sign.len()]));
        } else if i == sign.len() + d.len() {
            assert(t[i] == '.');
        } else {
            assert(t[i] == one[0]);
        }
    }
    assert(crate::text::trim_start(t) == t);
    assert(crate::text::trim_end(t) == t);
    lemma_strip_visual_plain(t);
    assert(strip_visual(trim(t)) == t);
    assert(is_digit(d[0]));
    assert(sign + d + seq!['.'] + one =~= t);
    let z = strip_visual(trim(t));
    assert(z == t);
    if m < 0 {
        assert(t[0] == '-');
        assert(t.drop_first() =~= u);
        assert(z.len() > 0 && z[0] == '-');
        if allow_negative {
            assert(money_value(t, allow_negative) == Some(-(magnitude / 10 * 10)));
        }
    } else {
        assert(t =~= u);
        assert(t[0] == d[0]);
        assert(z[0] != '-' && z[0] != '+');
        assert(money_value(t, allow_negative) == amount_value(u));
    }
}

/// Whole pounds written as digits read back as that many pounds; with a
/// leading minus sign, as minus that many pounds where a sign is accepted.
pub proof fn lemma_whole_pounds_text(digits: Seq<char>, allow_negative: bool)
    requires
        digits.len() > 0,
        all_digits(digits),
        value_of(digits) * 100 <= i64::MAX,
    ensures
        money_value(digits, allow_negative) == Some(value_of(digits) * 100),
        money_value(seq!['-'] + digits, allow_negative) == if allow_negative {
            Some(-(value_of(digits) * 100))
        } else {
            None
        },
{
    lemma_first_index(digits, '.');
    if has_char(digits, '.') {
        let k = choose|k: int| 0 <= k < digits.len() && digits[k] == '.';
        assert(is_digit(digits[k]));
    }
    assert(amount_value(digits) == Some(value_of(digits) * 100));
    let signed = seq!['-'] + digits;
    assert forall|i: int| 0 <= i < signed.len() implies !is_visual(#[trigger] signed[i])
        && !crate::text::is_whitespace(signed[i]) by {
        if i > 0 {
            assert(signed[i] == digits[i - 1]);
            assert(is_digit(digits[i - 1]));
        }
    }
    assert(signed.last() == digits.last());
    assert(is_digit(digits[digits.len() - 1]));
    assert(crate::text::trim_start(signed) == signed);
    assert(crate::text::trim_end(signed) == signed);
    lemma_strip_visual_plain(signed);
    assert(signed.drop_first() =~= digits);
    assert forall|i: int| 0 <= i < digits.len() implies !is_visual(#[trigger] digits[i])
        && !crate::text::is_whitespace(digits[i]) by {
        assert(is_digit(digits[i]));
    }
    assert(crate::text::trim_start(digits) == digits);
    assert(crate::text::trim_end(digits) == digits);
    lemma_strip_visual_plain(digits);
    assert(is_digit(digits[0]));
}

} // verus!
