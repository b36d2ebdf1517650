//! The keystroke-driven buffer used to edit one money field.
use vstd::prelude::*;

use crate::digits::{lemma_digits_of, parse_unsigned_range, push_digits, push_padded};
use crate::error::{BudgetError, BudgetErrorView};
use crate::money::{
    first_index, format_minor_units, lemma_first_index, lemma_text_to_first_pence_digit,
    lemma_whole_pounds_text, money_text, money_value, parse_money_input, Money,
};
use crate::month::document::MonthDocument;
use crate::state::field_catalog::{field_value, negative_allowed, FieldId, FieldKey};
use crate::text::{
    all_digits, char_is_digit, chars_of, digits_of, has_char, is_digit, owned, padded, parse_unsigned, push_char,
    string_from_chars, value_of, zeros,
};

verus! {

/// Editable money buffer used by guided creation and the monthly sheet.
#[derive(Debug, PartialEq, Eq)]
pub struct MoneyInput {
    base_minor: i64,
    edited_text: Option<String>,
    allow_negative: bool,
}

/// What a money buffer holds: the value it started from, the text typed so
/// far once editing has begun, and whether a sign may be typed.
pub struct MoneyInputView {
    pub base_minor: i64,
    pub text: Option<Seq<char>>,
    pub allow_negative: bool,
}

/// Characters a buffer's text is made of.
pub open spec fn is_buffer_char(c: char) -> bool {
    is_digit(c) || c == '.' || c == '-'
}

/// The text is made of digits, points and minus signs only.
pub open spec fn buffer_text_ok(t: Seq<char>) -> bool {
    forall|i: int| 0 <= i < t.len() ==> is_buffer_char(#[trigger] t[i])
}

impl View for MoneyInput {
    type V = MoneyInputView;

    closed spec fn view(&self) -> MoneyInputView {
        MoneyInputView {
            base_minor: self.base_minor,
            text: match self.edited_text {
                Some(t) => Some(t@),
                None => None,
            },
            allow_negative: self.allow_negative,
        }
    }
}

/// The text being edited; empty before the first edit.
pub open spec fn typed_text(v: MoneyInputView) -> Seq<char> {
    match v.text {
        Some(t) => t,
        None => Seq::empty(),
    }
}

/// `v` with its edited text replaced by `t`.
pub open spec fn with_text(v: MoneyInputView, t: Seq<char>) -> MoneyInputView {
    MoneyInputView { base_minor: v.base_minor, text: Some(t), allow_negative: v.allow_negative }
}

/// Number of characters after the first decimal point (zero without one).
pub open spec fn pence_typed(t: Seq<char>) -> int {
    if has_char(t, '.') {
        t.len() - first_index(t, '.') - 1
    } else {
        0
    }
}

/// The buffer after one keypress.
///
/// `£` and `+` are ignored; `-` toggles a leading sign where a sign is
/// allowed; `.` starts the pence once (after a `0` when no pounds were
/// typed); a digit is appended unless two pence digits are already there,
/// replacing a lone leading zero; every other key is ignored.
pub open spec fn after_key(v: MoneyInputView, c: char) -> MoneyInputView {
    let t = typed_text(v);
    if c == '£' || c == '+' {
        v
    } else if c == '-' && v.allow_negative {
        with_text(
            v,
            if t.len() > 0 && t[0] == '-' {
                t.drop_first()
            } else {
                seq!['-'] + t
            },
        )
    } else if c == '.' {
        if has_char(t, '.') {
            with_text(v, t)
        } else if t.len() == 0 || t == seq!['-'] {
            with_text(v, t + seq!['0', '.'])
        } else {
            with_text(v, t.push('.'))
        }
    } else if is_digit(c) {
        if pence_typed(t) >= 2 {
            with_text(v, t)
        } else if t == seq!['0'] {
            with_text(v, seq![c])
        } else if t == seq!['-', '0'] {
            with_text(v, seq!['-', c])
        } else {
            with_text(v, t.push(c))
        }
    } else {
        v
    }
}

/// The editable text of a stored amount: sign, pounds, `.`, two pence digits.
pub open spec fn editable_text(minor: int) -> Seq<char> {
    let magnitude = if minor < 0 { -minor } else { minor };
    (if minor < 0 { seq!['-'] } else { Seq::<char>::empty() }) + digits_of(
        (magnitude / 100) as nat,
    ) + seq!['.'] + padded(magnitude % 100, 2)
}

/// The buffer after deleting one character; before the first edit the
/// stored amount becomes editable text first.
pub open spec fn after_backspace(v: MoneyInputView) -> MoneyInputView {
    match v.text {
        None => with_text(v, editable_text(v.base_minor as int).drop_last()),
        Some(t) => with_text(v, if t.len() > 0 { t.drop_last() } else { t }),
    }
}

/// The pounds typed, read the way `u64::from_str` reads them; zero when
/// they do not form a number.
pub open spec fn typed_pounds(p: Seq<char>) -> nat {
    match parse_unsigned(p) {
        Some(n) => if n <= u64::MAX {
            n as nat
        } else {
            0
        },
        None => 0,
    }
}

/// The pence shown for the pence typed: padded with zeros to two digits.
pub open spec fn shown_pence(p: Seq<char>) -> Seq<char> {
    if p.len() == 0 {
        seq!['0', '0']
    } else if p.len() == 1 {
        seq![p[0], '0']
    } else {
        p.take(2)
    }
}

/// The display of typed text: sign, `£`, pounds and two pence digits.
pub open spec fn typed_display(t: Seq<char>) -> Seq<char> {
    let negative = t.len() > 0 && t[0] == '-';
    let u = if negative { t.drop_first() } else { t };
    let sign = if negative { seq!['-'] } else { Seq::<char>::empty() };
    if u.len() == 0 {
        sign + seq!['£', '0', '.', '0', '0']
    } else {
        let i = first_index(u, '.');
        let pence = if i < u.len() { u.skip(i + 1) } else { Seq::<char>::empty() };
        sign + seq!['£'] + digits_of(typed_pounds(u.take(i))) + seq!['.'] + shown_pence(pence)
    }
}

/// What the buffer shows: the stored amount before the first edit,
/// afterwards the typed text.
pub open spec fn shown_text(v: MoneyInputView) -> Seq<char> {
    match v.text {
        None => money_text(v.base_minor as int),
        Some(t) => typed_display(t),
    }
}

/// The value committing the buffer gives, or `None` when the typed text is
/// not an amount.
pub open spec fn committed(v: MoneyInputView) -> Option<int> {
    match v.text {
        None => Some(v.base_minor as int),
        Some(t) => if t.len() == 0 {
            Some(0)
        } else if t == seq!['-'] {
            None
        } else {
            money_value(t, v.allow_negative)
        },
    }
}

impl MoneyInput {
    #[verifier::type_invariant]
    spec fn text_ok(self) -> bool {
        match self.edited_text {
            Some(t) => buffer_text_ok(t@),
            None => true,
        }
    }

    /// Starts an unedited buffer showing `value`.
    pub fn from_value(value: Money, allow_negative: bool) -> (r: Self)
        ensures
            r@ == (MoneyInputView { base_minor: value@ as i64, text: None, allow_negative }),
    {
        MoneyInput { base_minor: value.minor(), edited_text: None, allow_negative }
    }

    /// Starts editing from a field's current persisted value.
    pub fn from_field(field: &FieldId, document: &MonthDocument) -> (r: Self)
        ensures
            r@ == (MoneyInputView {
                base_minor: field_value(*document, field@) as i64,
                text: None,
                allow_negative: negative_allowed(field@),
            }),
    {
        MoneyInput::from_value(field.current_value(document), field.allows_negative())
    }

    /// The text typed so far, as characters.
    fn text_chars(&self) -> (r: Vec<char>)
        ensures
            r@ == typed_text(self@),
            buffer_text_ok(r@),
    {
        proof {
            use_type_invariant(self);
        }
        match &self.edited_text {
            Some(t) => chars_of(t.as_str()),
            None => {
                let v: Vec<char> = Vec::new();
                proof {
                    assert(v@ =~= Seq::<char>::empty());
                }
                v
            },
        }
    }

    /// Applies a single terminal keypress to the editable buffer.
    pub fn push(&mut self, character: char)
        ensures
            final(self)@ == after_key(old(self)@, character),
    {
        if character == '£' || character == '+' {
            return ;
        }
        let t = self.text_chars();
        let ghost tv = t@;
        let mut out: Vec<char> = Vec::new();
        if character == '-' && self.allow_negative {
            if t.len() > 0 && t[0] == '-' {
                let mut i: usize = 1;
                while i < t.len()
                    invariant
                        1 <= i <= t@.len(),
                        out@ == t@.subrange(1, i as int),
                    decreases t.len() - i,
                {
                    out.push(t[i]);
                    proof {
                        assert(t@.subrange(1, i + 1) =~= t@.subrange(1, i as int).push(t@[i as int]));
                    }
                    i += 1;
                }
                proof {
                    assert(t@.subrange(1, t@.len() as int) =~= t@.drop_first());
                }
            } else {
                out.push('-');
                push_chars(&mut out, &t);
                proof {
                    assert(out@ =~= seq!['-'] + t@);
                }
            }
        } else if character == '.' {
            proof {
                lemma_first_index(tv, '.');
            }
            push_chars(&mut out, &t);
            if has_point(&t) {
            } else if t.len() == 0 || (t.len() == 1 && t[0] == '-') {
                proof {
                    if t.len() == 1 {
                        assert(tv =~= seq!['-']);
                    }
                }
                out.push('0');
                out.push('.');
                proof {
                    assert(out@ =~= tv + seq!['0', '.']);
                }
            } else {
                proof {
                    if tv.len() == 1 {
                        assert(tv != seq!['-']);
                    }
                }
                out.push('.');
            }
        } else if char_is_digit(character) {
            proof {
                lemma_first_index(tv, '.');
            }
            let point = point_index(&t);
            if point < t.len() && t.len() - point - 1 >= 2 {
                push_chars(&mut out, &t);
            } else if t.len() == 1 && t[0] == '0' {
                proof {
                    assert(tv =~= seq!['0']);
                }
                out.push(character);
            } else if t.len() == 2 && t[0] == '-' && t[1] == '0' {
                proof {
                    assert(tv =~= seq!['-', '0']);
                }
                out.push('-');
                out.push(character);
                proof {
                    assert(out@ =~= seq!['-', character]);
                }
            } else {
                proof {
                    if tv.len() == 1 {
                        assert(tv != seq!['0']);
                    }
                    if tv.len() == 2 {
                        assert(tv != seq!['-', '0']);
                    }
                }
                push_chars(&mut out, &t);
                out.push(character);
            }
        } else {
            return ;
        }
        proof {
            assert(buffer_text_ok(out@));
        }
        self.edited_text = Some(string_from_chars(&out));
    }

    /// Deletes one character from the editable buffer.
    pub fn backspace(&mut self)
        requires
            old(self)@.text is None ==> old(self)@.base_minor != i64::MIN,
        ensures
            final(self)@ == after_backspace(old(self)@),
    {
        let mut t = match &self.edited_text {
            None => editable_text_from_minor(self.base_minor),
            Some(_) => self.text_chars(),
        };
        t.pop();
        proof {
            if t@.len() > 0 {
                assert(buffer_text_ok(t@));
            }
        }
        self.edited_text = Some(string_from_chars(&t));
    }

    /// Returns the display form shown in the UI, including the currency prefix.
    pub fn display_text(&self) -> (r: String)
        requires
            self@.text is None ==> self@.base_minor != i64::MIN,
        ensures
            r@ == shown_text(self@),
    {
        match &self.edited_text {
            None => format_minor_units(self.base_minor),
            Some(_) => {
                let t = self.text_chars();
                format_editable_money_text(&t)
            },
        }
    }

    /// Converts the current buffer into a committed money value.
    ///
    /// A lone minus sign is not an amount and is reported as
    /// [`BudgetError::InvalidMoney`]; so is any typed text that
    /// [`parse_money_input`] rejects.
    pub fn commit_value(&self) -> (r: Result<Money, BudgetError>)
        ensures
            match r {
                Ok(m) => committed(self@) == Some(m@),
                Err(e) => committed(self@) is None && e@ == BudgetErrorView::InvalidMoney(
                    typed_text(self@),
                ),
            },
    {
        match &self.edited_text {
            None => Ok(Money::from_minor(self.base_minor)),
            Some(text) => {
                let t = self.text_chars();
                if t.len() == 0 {
                    Ok(Money::zero())
                } else if t.len() == 1 && t[0] == '-' {
                    proof {
                        assert(t@ =~= seq!['-']);
                    }
                    Err(BudgetError::InvalidMoney(owned(text.as_str())))
                } else {
                    proof {
                        if t@.len() == 1 {
                            assert(t@ != seq!['-']);
                        }
                    }
                    parse_money_input(text.as_str(), self.allow_negative)
                }
            },
        }
    }

    /// Reports whether the user has diverged from the stored field value.
    pub fn is_edited(&self) -> (r: bool)
        ensures
            r == (self@.text is Some),
    {
        self.edited_text.is_some()
    }

    /// Reports whether the buffer can be shown and shortened: an untouched
    /// buffer's starting value must have a magnitude that fits in `i64`.
    pub fn fits_display(&self) -> (r: bool)
        ensures
            r == (self@.text is None ==> self@.base_minor != i64::MIN),
    {
        self.edited_text.is_some() || self.base_minor != i64::MIN
    }
}

impl Clone for MoneyInput {
    fn clone(&self) -> (r: Self)
        ensures
            r@ == self@,
    {
        proof {
            use_type_invariant(self);
        }
        MoneyInput {
            base_minor: self.base_minor,
            edited_text: match &self.edited_text {
                Some(t) => Some(t.clone()),
                None => None,
            },
            allow_negative: self.allow_negative,
        }
    }
}

/// Until its first edit a buffer shows the amount it started from, written
/// as `format_minor_units` writes it; once edited it shows the typed text as
/// sign, `£`, pounds and two pence digits, so that nothing typed, or a lone
/// minus sign, shows as zero pounds.
pub proof fn lemma_display_follows_buffer(v: MoneyInputView)
    ensures
        v.text is None ==> shown_text(v) == money_text(v.base_minor as int),
        v.text matches Some(t) ==> shown_text(v) == typed_display(t),
        v.text == Some(Seq::<char>::empty()) ==> shown_text(v) == seq!['£', '0', '.', '0', '0'],
        v.text == Some(seq!['-']) ==> shown_text(v) == seq!['-', '£', '0', '.', '0', '0'],
{
    let empty = Seq::<char>::empty();
    assert(typed_display(empty) =~= seq!['£', '0', '.', '0', '0']);
    let minus = seq!['-'];
    assert(minus.drop_first() =~= empty);
    assert(typed_display(minus) =~= seq!['-', '£', '0', '.', '0', '0']);
}

/// The first backspace on a stored amount deletes only its last pence
/// digit: committing right after it gives the amount with that digit
/// dropped and its sign kept, or nothing when the field refuses the sign.
pub proof fn lemma_first_backspace_keeps_the_sign(v: MoneyInputView)
    requires
        v.text is None,
        v.base_minor != i64::MIN,
    ensures
        ({
            let m = v.base_minor as int;
            let magnitude = if m < 0 { -m } else { m };
            committed(after_backspace(v)) == if m < 0 && !v.allow_negative {
                None
            } else if m < 0 {
                Some(-(magnitude / 10 * 10))
            } else {
                Some(magnitude / 10 * 10)
            }
        }),
{
    let m = v.base_minor as int;
    let magnitude = if m < 0 { -m } else { m };
    let sign = if m < 0 { seq!['-'] } else { Seq::<char>::empty() };
    let d = digits_of((magnitude / 100) as nat);
    let p = padded(magnitude % 100, 2);
    crate::digits::lemma_digits_of((magnitude / 100) as nat);
    crate::digits::lemma_padded_nonneg(magnitude % 100, 2);
    let pd = digits_of((magnitude % 100) as nat);
    crate::digits::lemma_digits_of((magnitude % 100) as nat);
    if magnitude % 100 >= 10 {
        crate::digits::lemma_digits_of((magnitude % 100 / 10) as nat);
        assert(pd.len() == 2);
    }
    assert(p.len() == 2);
    let t = editable_text(m).drop_last();
    assert(t =~= sign + d + seq!['.'] + p.take(1));
    assert(t.len() >= 3);
    assert(t != seq!['-']);
    lemma_text_to_first_pence_digit(m, v.allow_negative);
}

/// Only the over/under correction and a pot's monthly change take a sign:
/// in those fields a minus typed into a freshly opened buffer starts a
/// negative amount, and typing `-`, `2`, `5` commits minus twenty-five
/// pounds; every other field ignores the minus.
pub proof fn lemma_minus_only_in_signed_fields(f: FieldKey, base: i64)
    ensures
        negative_allowed(f) <==> (f == FieldKey::PreviousMonthSpendingCorrection || f is PotChange),
        ({
            let v = MoneyInputView { base_minor: base, text: None, allow_negative: negative_allowed(f) };
            let typed = after_key(after_key(after_key(v, '-'), '2'), '5');
            if f == FieldKey::PreviousMonthSpendingCorrection || f is PotChange {
                &&& after_key(v, '-').text == Some(seq!['-'])
                &&& typed.text == Some(seq!['-', '2', '5'])
                &&& committed(typed) == Some(-2500int)
            } else {
                &&& after_key(v, '-') == v
                &&& typed.text == Some(seq!['2', '5'])
                &&& committed(typed) == Some(2500int)
            }
        }),
{
    let v = MoneyInputView { base_minor: base, text: None, allow_negative: negative_allowed(f) };
    let e = Seq::<char>::empty();
    assert(!has_char(e, '.'));
    let one = after_key(v, '-');
    if negative_allowed(f) {
        assert(seq!['-'] + e =~= seq!['-']);
        let t1 = seq!['-'];
        assert(!has_char(t1, '.'));
        assert(pence_typed(t1) == 0);
        assert(t1 != seq!['0']);
        assert(t1 != seq!['-', '0']) by {
            assert(seq!['-', '0'].len() == 2);
        }
        assert(t1.push('2') =~= seq!['-', '2']);
        let t2 = seq!['-', '2'];
        assert(!has_char(t2, '.'));
        assert(t2 != seq!['0']);
        assert(t2 != seq!['-', '0']) by {
            assert(seq!['-', '0'][1] == '0');
        }
        assert(t2.push('5') =~= seq!['-', '2', '5']);
        lemma_two_five();
        assert(seq!['-'] + seq!['2', '5'] =~= seq!['-', '2', '5']);
        lemma_whole_pounds_text(seq!['2', '5'], true);
    } else {
        assert(one == v);
        assert(pence_typed(e) == 0);
        assert(e != seq!['0']);
        assert(e != seq!['-', '0']);
        assert(e.push('2') =~= seq!['2']);
        let t2 = seq!['2'];
        assert(!has_char(t2, '.'));
        assert(t2 != seq!['0']);
        assert(t2 != seq!['-', '0']);
        assert(t2.push('5') =~= seq!['2', '5']);
        lemma_two_five();
        lemma_whole_pounds_text(seq!['2', '5'], false);
    }
}

/// The digits `25` read as twenty-five.
proof fn lemma_two_five()
    ensures
        all_digits(seq!['2', '5']),
        value_of(seq!['2', '5']) == 25,
{
    let s = seq!['2', '5'];
    assert(s.drop_last() =~= seq!['2']);
    assert(seq!['2'].drop_last() =~= Seq::<char>::empty());
    assert(value_of(Seq::<char>::empty()) == 0);
    assert(crate::text::digit_val('2') == 2);
    assert(crate::text::digit_val('5') == 5);
    assert(value_of(seq!['2']) == value_of(seq!['2'].drop_last()) * 10 + crate::text::digit_val('2'));
    assert(value_of(seq!['2']) == 2);
    assert(is_digit(s[0]) && is_digit(s[1]));
}

/// Appends the characters of `t`.
fn push_chars(out: &mut Vec<char>, t: &Vec<char>)
    ensures
        final(out)@ == old(out)@ + t@,
{
    let ghost start = out@;
    let mut i: usize = 0;
    while i < t.len()
        invariant
            i <= t@.len(),
            out@ == start + t@.take(i as int),
        decreases t.len() - i,
    {
        out.push(t[i]);
        proof {
            assert(t@.take(i + 1) =~= t@.take(i as int).push(t@[i as int]));
        }
        i += 1;
    }
    proof {
        assert(t@.take(i as int) =~= t@);
    }
}

/// Position of the first `.`, or the length when there is none.
fn point_index(t: &Vec<char>) -> (r: usize)
    ensures
        r == first_index(t@, '.'),
{
    proof {
        lemma_first_index(t@, '.');
    }
    let mut i: usize = 0;
    while i < t.len()
        invariant
            i <= t@.len(),
            forall|k: int| 0 <= k < i ==> t@[k] != '.',
            0 <= first_index(t@, '.') <= t@.len(),
            first_index(t@, '.') < t@.len() ==> t@[first_index(t@, '.')] == '.',
            forall|k: int| 0 <= k < first_index(t@, '.') ==> t@[k] != '.',
        decreases t.len() - i,
    {
        if t[i] == '.' {
            return i;
        }
        i += 1;
    }
    i
}

/// Whether `t` holds a `.`.
fn has_point(t: &Vec<char>) -> (r: bool)
    ensures
        r == has_char(t@, '.'),
{
    proof {
        lemma_first_index(t@, '.');
    }
    point_index(t) < t.len()
}

/// The editable text of a stored amount.
fn editable_text_from_minor(minor: i64) -> (r: Vec<char>)
    requires
        minor != i64::MIN,
    ensures
        r@ == editable_text(minor as int),
        buffer_text_ok(r@),
{
    let mut s = String::new();
    if minor < 0 {
        push_char(&mut s, '-');
    }
    let absolute: i64 = if minor < 0 { -minor } else { minor };
    push_digits(&mut s, (absolute / 100) as u64);
    push_char(&mut s, '.');
    push_padded(&mut s, absolute % 100, 2);
    proof {
        assert(s@ =~= editable_text(minor as int));
        lemma_editable_text_ok(minor as int);
    }
    chars_of(s.as_str())
}

/// The editable text of an amount is made of buffer characters.
proof fn lemma_editable_text_ok(minor: int)
    ensures
        buffer_text_ok(editable_text(minor)),
{
    let magnitude = if minor < 0 { -minor } else { minor };
    let sign = if minor < 0 { seq!['-'] } else { Seq::<char>::empty() };
    let pounds = digits_of((magnitude / 100) as nat);
    let pence = digits_of((magnitude % 100) as nat);
    lemma_digits_of((magnitude / 100) as nat);
    lemma_digits_of((magnitude % 100) as nat);
    assert(buffer_text_ok(sign));
    assert(buffer_text_ok(pounds));
    assert(buffer_text_ok(pence));
    assert(buffer_text_ok(seq!['.']));
    assert(buffer_text_ok(zeros(2 - pence.len())));
    lemma_ok_concat(sign, pounds);
    lemma_ok_concat(sign + pounds, seq!['.']);
    lemma_ok_concat(zeros(2 - pence.len()), pence);
    lemma_ok_concat(sign + pounds + seq!['.'], zeros(2 - pence.len()) + pence);
    assert(editable_text(minor) =~= sign + pounds + seq!['.'] + (zeros(2 - pence.len()) + pence));
}

/// Joining two buffer texts gives a buffer text.
proof fn lemma_ok_concat(a: Seq<char>, b: Seq<char>)
    requires
        buffer_text_ok(a),
        buffer_text_ok(b),
    ensures
        buffer_text_ok(a + b),
{
    assert forall|i: int| 0 <= i < (a + b).len() implies is_buffer_char(#[trigger] (a + b)[i]) by {
        if i >= a.len() {
            assert((a + b)[i] == b[i - a.len()]);
        }
    }
}

/// Renders typed text the way the buffer shows it.
fn format_editable_money_text(t: &Vec<char>) -> (r: String)
    ensures
        r@ == typed_display(t@),
{
    let negative = t.len() > 0 && t[0] == '-';
    let start: usize = if negative { 1 } else { 0 };
    let ghost u = if negative { t@.drop_first() } else { t@ };
    let mut s = String::new();
    if negative {
        push_char(&mut s, '-');
    }
    if start == t.len() {
        push_char(&mut s, '£');
        push_char(&mut s, '0');
        push_char(&mut s, '.');
        push_char(&mut s, '0');
        push_char(&mut s, '0');
        proof {
            assert(u.len() == 0);
            assert(s@ =~= typed_display(t@));
        }
        return s;
    }
    let mut rest: Vec<char> = Vec::new();
    let mut k: usize = start;
    while k < t.len()
        invariant
            start <= k <= t@.len(),
            rest@ == t@.subrange(start as int, k as int),
        decreases t.len() - k,
    {
        rest.push(t[k]);
        proof {
            assert(t@.subrange(start as int, k + 1) =~= t@.subrange(start as int, k as int).push(
                t@[k as int],
            ));
        }
        k += 1;
    }
    proof {
        assert(rest@ =~= u);
        lemma_first_index(u, '.');
    }
    let i = point_index(&rest);
    let pounds: u64 = match parse_unsigned_range(&rest, 0, i, u64::MAX) {
        Some(p) => p,
        None => 0,
    };
    proof {
        assert(rest@.subrange(0, i as int) =~= u.take(i as int));
    }
    push_char(&mut s, '£');
    push_digits(&mut s, pounds);
    push_char(&mut s, '.');
    let ghost pence = if i < u.len() { u.skip(i + 1) } else { Seq::<char>::empty() };
    let have: usize = if i < rest.len() { rest.len() - i - 1 } else { 0 };
    proof {
        assert(pence.len() == have);
        if have > 0 {
            assert(pence[0] == rest@[i + 1]);
        }
        if have > 1 {
            assert(pence[1] == rest@[i + 2]);
        }
    }
    if have == 0 {
        push_char(&mut s, '0');
        push_char(&mut s, '0');
    } else if have == 1 {
        push_char(&mut s, rest[i + 1]);
        push_char(&mut s, '0');
    } else {
        push_char(&mut s, rest[i + 1]);
        push_char(&mut s, rest[i + 2]);
        proof {
            assert(pence.take(2) =~= seq![pence[0], pence[1]]);
        }
    }
    proof {
        assert(s@ =~= typed_display(t@));
    }
    s
}

} // verus!
