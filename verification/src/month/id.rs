//! Year-month identifiers used for month files and labels.
use vstd::prelude::*;

use crate::digits::{lemma_padded_nonneg, push_padded};
use crate::error::{BudgetError, BudgetErrorView};
use crate::text::{
    char_is_digit, chars_of, digit_val, digits_of, int_text, is_digit, owned, padded, push_char,
    push_str, value_of,
};

verus! {

/// Year-month identifier used for month files and UI labels.
#[derive(Clone, Copy, Debug, PartialEq, Eq, PartialOrd, Ord, Hash)]
pub struct MonthId {
    year: i32,
    month: u8,
}

impl MonthId {
    #[verifier::type_invariant]
    spec fn month_in_range(self) -> bool {
        1 <= self.month <= 12
    }

    /// The calendar year.
    pub closed spec fn spec_year(self) -> int {
        self.year as int
    }

    /// The calendar month, `1..=12`.
    pub closed spec fn spec_month(self) -> int {
        self.month as int
    }
}

/// Identifiers with the same year and month are equal.
pub proof fn lemma_month_id_ext(a: MonthId, b: MonthId)
    requires
        a.spec_year() == b.spec_year(),
        a.spec_month() == b.spec_month(),
    ensures
        a == b,
{
}

/// `a` is a strictly earlier month than `b`.
pub open spec fn month_before(a: MonthId, b: MonthId) -> bool {
    a.spec_year() < b.spec_year() || (a.spec_year() == b.spec_year() && a.spec_month()
        < b.spec_month())
}

/// `s` has the `YYYY-MM` shape: four ASCII digits, `-`, two ASCII digits.
pub open spec fn month_shaped(s: Seq<char>) -> bool {
    &&& s.len() == 7
    &&& is_digit(s[0]) && is_digit(s[1]) && is_digit(s[2]) && is_digit(s[3])
    &&& s[4] == '-'
    &&& is_digit(s[5]) && is_digit(s[6])
}

/// The `(year, month)` that `s` names: only text of the `YYYY-MM` shape
/// whose month is in `1..=12` names one.
pub open spec fn parsed_month(s: Seq<char>) -> Option<(int, int)> {
    if month_shaped(s) {
        let year = 1000 * digit_val(s[0]) + 100 * digit_val(s[1]) + 10 * digit_val(s[2])
            + digit_val(s[3]);
        let month = 10 * digit_val(s[5]) + digit_val(s[6]);
        if 1 <= month <= 12 {
            Some((year, month))
        } else {
            None
        }
    } else {
        None
    }
}

/// The stable `YYYY-MM` key of a month.
pub open spec fn month_key(year: int, month: int) -> Seq<char> {
    padded(year, 4) + seq!['-'] + padded(month, 2)
}

/// English month name for `1..=12`.
pub open spec fn month_name(month: int) -> Seq<char> {
    if month == 1 {
        "January"@
    } else if month == 2 {
        "February"@
    } else if month == 3 {
        "March"@
    } else if month == 4 {
        "April"@
    } else if month == 5 {
        "May"@
    } else if month == 6 {
        "June"@
    } else if month == 7 {
        "July"@
    } else if month == 8 {
        "August"@
    } else if month == 9 {
        "September"@
    } else if month == 10 {
        "October"@
    } else if month == 11 {
        "November"@
    } else {
        "December"@
    }
}

/// The value of a decimal digit character.
fn digit_value(c: char) -> (r: u32)
    requires
        is_digit(c),
    ensures
        r == digit_val(c),
        r < 10,
{
    (c as u32) - ('0' as u32)
}

fn name_of_month(month: u8) -> (r: &'static str)
    requires
        1 <= month <= 12,
    ensures
        r@ == month_name(month as int),
{
    if month == 1 {
        "January"
    } else if month == 2 {
        "February"
    } else if month == 3 {
        "March"
    } else if month == 4 {
        "April"
    } else if month == 5 {
        "May"
    } else if month == 6 {
        "June"
    } else if month == 7 {
        "July"
    } else if month == 8 {
        "August"
    } else if month == 9 {
        "September"
    } else if month == 10 {
        "October"
    } else if month == 11 {
        "November"
    } else {
        "December"
    }
}

impl MonthId {
    /// Parses a `YYYY-MM` month identifier.
    pub fn parse(input: &str) -> (r: Result<Self, BudgetError>)
        ensures
            match r {
                Ok(id) => parsed_month(input@) == Some((id.spec_year(), id.spec_month())),
                Err(e) => parsed_month(input@) is None && e@ == BudgetErrorView::InvalidMonthId(
                    input@,
                ),
            },
    {
        let v = chars_of(input);
        if v.len() != 7 || !char_is_digit(v[0]) || !char_is_digit(v[1]) || !char_is_digit(v[2])
            || !char_is_digit(v[3]) || v[4] != '-' || !char_is_digit(v[5]) || !char_is_digit(
            v[6],
        ) {
            return Err(BudgetError::InvalidMonthId(owned(input)));
        }
        let year = 1000 * digit_value(v[0]) + 100 * digit_value(v[1]) + 10 * digit_value(v[2])
            + digit_value(v[3]);
        let month = 10 * digit_value(v[5]) + digit_value(v[6]);
        if 1 <= month && month <= 12 {
            Ok(MonthId { year: year as i32, month: month as u8 })
        } else {
            Err(BudgetError::InvalidMonthId(owned(input)))
        }
    }

    /// Builds a validated month identifier from numeric components.
    pub fn new(year: i32, month: u8) -> (r: Option<Self>)
        ensures
            match r {
                Some(id) => 1 <= month <= 12 && id.spec_year() == year && id.spec_month()
                    == month,
                None => !(1 <= month <= 12),
            },
    {
        if 1 <= month && month <= 12 {
            Some(MonthId { year, month })
        } else {
            None
        }
    }

    /// Returns the calendar year component.
    pub fn year(self) -> (r: i32)
        ensures
            r == self.spec_year(),
    {
        self.year
    }

    /// Returns the calendar month component in the range `1..=12`.
    pub fn month(self) -> (r: u8)
        ensures
            r == self.spec_month(),
            1 <= r <= 12,
    {
        proof {
            use_type_invariant(&self);
        }
        self.month
    }

    /// Returns the stable `YYYY-MM` key used throughout the app.
    pub fn key(self) -> (r: String)
        ensures
            r@ == month_key(self.spec_year(), self.spec_month()),
    {
        let mut s = String::new();
        push_padded(&mut s, self.year as i64, 4);
        push_char(&mut s, '-');
        push_padded(&mut s, self.month as i64, 2);
        proof {
            assert(s@ =~= month_key(self.spec_year(), self.spec_month()));
        }
        s
    }

    /// Returns the repository filename for this month document.
    pub fn file_name(self) -> (r: String)
        ensures
            r@ == month_key(self.spec_year(), self.spec_month()) + ".toml"@,
    {
        let mut s = self.key();
        push_str(&mut s, ".toml");
        s
    }

    /// Returns the human-readable label shown in the UI.
    pub fn display_label(self) -> (r: String)
        ensures
            r@ == month_name(self.spec_month()) + " "@ + int_text(self.spec_year()),
    {
        proof {
            use_type_invariant(&self);
        }
        let mut s = owned(name_of_month(self.month));
        push_str(&mut s, " ");
        push_padded(&mut s, self.year as i64, 0);
        s
    }

    /// Reports whether this month comes strictly before `other`.
    pub fn is_before(self, other: Self) -> (r: bool)
        ensures
            r == month_before(self, other),
    {
        self.year < other.year || (self.year == other.year && self.month < other.month)
    }

    /// Reports whether two identifiers name the same month.
    pub fn same_as(self, other: Self) -> (r: bool)
        ensures
            r == (self == other),
    {
        self.year == other.year && self.month == other.month
    }
}

/// One more leading digit: reading the first `i + 1` characters.
proof fn lemma_value_of_take_step(s: Seq<char>, i: int)
    requires
        0 <= i < s.len(),
    ensures
        value_of(s.take(i + 1)) == value_of(s.take(i)) * 10 + digit_val(s[i]),
{
    assert(s.take(i + 1).drop_last() =~= s.take(i));
}

/// A number below `10^4` has at most four digits, one below `100` at most
/// two.
proof fn lemma_short_digits(n: nat)
    ensures
        n <= 9999 ==> digits_of(n).len() <= 4,
        n <= 99 ==> digits_of(n).len() <= 2,
{
    if n >= 10 {
        let a = n / 10;
        if a >= 10 {
            let b = a / 10;
            if b >= 10 {
                let c = b / 10;
                assert(digits_of(c).len() >= 1);
                if n <= 9999 {
                    assert(c < 10);
                    assert(digits_of(c).len() == 1);
                }
            }
            assert(digits_of(a).len() == digits_of(b).len() + 1);
        }
        assert(digits_of(n).len() == digits_of(a).len() + 1);
    }
}

/// A four-character digit string reads as its digits' weighted sum.
proof fn lemma_four_digits(p: Seq<char>)
    requires
        p.len() == 4,
    ensures
        value_of(p) == 1000 * digit_val(p[0]) + 100 * digit_val(p[1]) + 10 * digit_val(p[2])
            + digit_val(p[3]),
{
    assert(p.take(0) =~= Seq::<char>::empty());
    lemma_value_of_take_step(p, 0);
    lemma_value_of_take_step(p, 1);
    lemma_value_of_take_step(p, 2);
    lemma_value_of_take_step(p, 3);
    assert(p.take(4) =~= p);
}

/// A two-character digit string reads as its digits' weighted sum.
proof fn lemma_two_digits(q: Seq<char>)
    requires
        q.len() == 2,
    ensures
        value_of(q) == 10 * digit_val(q[0]) + digit_val(q[1]),
{
    assert(q.take(0) =~= Seq::<char>::empty());
    lemma_value_of_take_step(q, 0);
    lemma_value_of_take_step(q, 1);
    assert(q.take(2) =~= q);
}

/// Parsing the key of a month gives the month back, for the years that
/// have four digits.
pub proof fn lemma_key_parses_back(m: MonthId)
    requires
        0 <= m.spec_year() <= 9999,
        1 <= m.spec_month() <= 12,
    ensures
        parsed_month(month_key(m.spec_year(), m.spec_month())) == Some(
            (m.spec_year(), m.spec_month()),
        ),
{
    let y = m.spec_year();
    let mo = m.spec_month();
    let p = padded(y, 4);
    let q = padded(mo, 2);
    lemma_padded_nonneg(y, 4);
    lemma_padded_nonneg(mo, 2);
    lemma_short_digits(y as nat);
    lemma_short_digits(mo as nat);
    assert(p.len() == 4);
    assert(q.len() == 2);
    lemma_four_digits(p);
    lemma_two_digits(q);
    let key = month_key(y, mo);
    assert(key == p + seq!['-'] + q);
    assert(key[0] == p[0] && key[1] == p[1] && key[2] == p[2] && key[3] == p[3]);
    assert(key[4] == '-');
    assert(key[5] == q[0] && key[6] == q[1]);
    assert(is_digit(p[0]) && is_digit(p[1]) && is_digit(p[2]) && is_digit(p[3]));
    assert(is_digit(q[0]) && is_digit(q[1]));
}

} // verus!
