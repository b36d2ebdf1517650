//! The colour roles of the screens and the checks on a Base24 palette.
use vstd::prelude::*;

use crate::state::field_catalog::SectionId;
use crate::text::{
    char_is_hexdigit, chars_of, has_char, is_hexdigit, owned, push_str, str_eq, string_from_range,
};

verus! {

/// Semantic colour roles used instead of palette slots.
#[derive(Clone, Copy, Debug, PartialEq, Eq, Structural)]
pub enum Tone {
    Navigation,
    Guided,
    Summary,
    Status,
    Liability,
    Accounts,
    Timing,
    Earmarks,
    Pots,
    Danger,
    Success,
    Warning,
}

/// The accent of each sheet section.
pub fn section_tone(section: SectionId) -> (r: Tone)
    ensures
        r == (match section {
            SectionId::Accounts => Tone::Accounts,
            SectionId::TimingAdjustments => Tone::Timing,
            SectionId::NextMonthEarmarks => Tone::Earmarks,
            SectionId::SavingsPots => Tone::Pots,
        }),
{
    match section {
        SectionId::Accounts => Tone::Accounts,
        SectionId::TimingAdjustments => Tone::Timing,
        SectionId::NextMonthEarmarks => Tone::Earmarks,
        SectionId::SavingsPots => Tone::Pots,
    }
}

/// The tone of a validation result.
pub fn validation_tone(is_valid: bool) -> (r: Tone)
    ensures
        r == (if is_valid { Tone::Success } else { Tone::Danger }),
{
    if is_valid {
        Tone::Success
    } else {
        Tone::Danger
    }
}

/// How strongly a status word is coloured.
#[derive(Clone, Copy, Debug, PartialEq, Eq, Structural)]
pub enum Emphasis {
    /// Bold, in the tone.
    Strong(Tone),
    /// Plain, in the tone.
    Plain(Tone),
    /// The bright foreground.
    Bright,
    /// The muted foreground.
    Muted,
}

/// The colouring of a status value in the summaries: good states in the
/// success tone, pending ones as warnings, work in progress in the status
/// tone, failures as danger.
pub open spec fn status_value_spec(label: Seq<char>) -> Emphasis {
    if label == "clean"@ || label == "synced"@ || label == "valid"@ || label == "within tolerance"@ {
        Emphasis::Strong(Tone::Success)
    } else if label == "dirty"@ || label == "pending"@ {
        Emphasis::Strong(Tone::Warning)
    } else if label == "autosaving"@ || label == "syncing"@ {
        Emphasis::Strong(Tone::Status)
    } else if label == "failed"@ || label == "invalid"@ || label == "outside tolerance"@ {
        Emphasis::Strong(Tone::Danger)
    } else {
        Emphasis::Bright
    }
}

/// The colouring of a status value in the summaries.
pub fn status_value_emphasis(label: &str) -> (r: Emphasis)
    ensures
        r == status_value_spec(label@),
{
    if str_eq(label, "clean") || str_eq(label, "synced") || str_eq(label, "valid") || str_eq(
        label,
        "within tolerance",
    ) {
        Emphasis::Strong(Tone::Success)
    } else if str_eq(label, "dirty") || str_eq(label, "pending") {
        Emphasis::Strong(Tone::Warning)
    } else if str_eq(label, "autosaving") || str_eq(label, "syncing") {
        Emphasis::Strong(Tone::Status)
    } else if str_eq(label, "failed") || str_eq(label, "invalid") || str_eq(
        label,
        "outside tolerance",
    ) {
        Emphasis::Strong(Tone::Danger)
    } else {
        Emphasis::Bright
    }
}

/// The colouring of the persistence and sync words in status lines, which
/// stay quieter than the summaries' values.
pub open spec fn operational_status_spec(label: Seq<char>) -> Emphasis {
    if label == "clean"@ || label == "synced"@ {
        Emphasis::Plain(Tone::Status)
    } else if label == "dirty"@ || label == "pending"@ {
        Emphasis::Plain(Tone::Warning)
    } else if label == "autosaving"@ || label == "syncing"@ {
        Emphasis::Strong(Tone::Status)
    } else if label == "failed"@ {
        Emphasis::Strong(Tone::Danger)
    } else {
        Emphasis::Muted
    }
}

/// The colouring of the persistence and sync words in status lines.
pub fn operational_status_emphasis(label: &str) -> (r: Emphasis)
    ensures
        r == operational_status_spec(label@),
{
    if str_eq(label, "clean") || str_eq(label, "synced") {
        Emphasis::Plain(Tone::Status)
    } else if str_eq(label, "dirty") || str_eq(label, "pending") {
        Emphasis::Plain(Tone::Warning)
    } else if str_eq(label, "autosaving") || str_eq(label, "syncing") {
        Emphasis::Strong(Tone::Status)
    } else if str_eq(label, "failed") {
        Emphasis::Strong(Tone::Danger)
    } else {
        Emphasis::Muted
    }
}

/// The colouring of a month's state in the month list: valid months in
/// the success tone, the others as warnings.
pub fn month_state_emphasis(is_valid: bool) -> (r: Emphasis)
    ensures
        r == (if is_valid { Emphasis::Plain(Tone::Success) } else { Emphasis::Plain(Tone::Warning) }),
{
    if is_valid {
        Emphasis::Plain(Tone::Success)
    } else {
        Emphasis::Plain(Tone::Warning)
    }
}

/// The position of the first space in `s`.
pub open spec fn first_space(s: Seq<char>) -> int {
    choose|i: int| 0 <= i < s.len() && s[i] == ' ' && forall|j: int| 0 <= j < i ==> s[j] != ' '
}

/// A key hint such as `Enter save` split at its first space into the key
/// and the action; a hint with no space is a key alone.
pub fn key_hint_parts(hint: &str) -> (r: (String, Option<String>))
    ensures
        !has_char(hint@, ' ') ==> r.0@ == hint@ && r.1 is None,
        has_char(hint@, ' ') ==> {
            let i = first_space(hint@);
            &&& 0 <= i < hint@.len()
            &&& hint@[i] == ' '
            &&& forall|j: int| 0 <= j < i ==> hint@[j] != ' '
            &&& r.0@ == hint@.subrange(0, i)
            &&& r.1 matches Some(a) && a@ == hint@.subrange(i + 1, hint@.len() as int)
        },
{
    let v = chars_of(hint);
    let mut i: usize = 0;
    while i < v.len()
        invariant
            v@ == hint@,
            i <= v@.len(),
            forall|j: int| 0 <= j < i ==> v@[j] != ' ',
        decreases v.len() - i,
    {
        if v[i] == ' ' {
            proof {
                let k = first_space(hint@);
                assert(0 <= i < hint@.len() && hint@[i as int] == ' ' && forall|j: int|
                    0 <= j < i ==> hint@[j] != ' ');
                assert(0 <= k < hint@.len() && hint@[k] == ' ' && forall|j: int|
                    0 <= j < k ==> hint@[j] != ' ');
                if k < i {
                    assert(v@[k] != ' ');
                }
                if i < k {
                    assert(hint@[i as int] != ' ');
                }
                assert(k == i);
            }
            let key = string_from_range(&v, 0, i);
            let action = string_from_range(&v, i + 1, v.len());
            return (key, Some(action));
        }
        i += 1;
    }
    proof {
        assert forall|j: int| 0 <= j < hint@.len() implies hint@[j] != ' ' by {
            assert(v@[j] != ' ');
        }
    }
    (owned(hint), None)
}

/// A colour written `#RRGGBB`.
pub open spec fn hex_colour(v: Seq<char>) -> bool {
    v.len() == 7 && v[0] == '#' && forall|i: int| 1 <= i < 7 ==> is_hexdigit(#[trigger] v[i])
}

/// Checks that a palette entry is written `#RRGGBB`.
pub fn validate_hex_colour(field: &str, value: &str) -> (r: Result<(), String>)
    ensures
        match r {
            Ok(()) => hex_colour(value@),
            Err(m) => !hex_colour(value@) && m@ == field@ + " must use #RRGGBB"@,
        },
{
    let v = chars_of(value);
    let mut ok = v.len() == 7 && v[0] == '#';
    if ok {
        let mut i: usize = 1;
        while i < 7
            invariant
                v@.len() == 7,
                v@[0] == '#',
                1 <= i <= 7,
                ok == forall|k: int| 1 <= k < i ==> is_hexdigit(#[trigger] v@[k]),
            decreases 7 - i,
        {
            ok = ok && char_is_hexdigit(v[i]);
            i += 1;
        }
    }
    if ok {
        Ok(())
    } else {
        let mut m = owned(field);
        push_str(&mut m, " must use #RRGGBB");
        Err(m)
    }
}

/// The value of a hexadecimal digit.
pub open spec fn hex_val(c: char) -> int {
    if '0' <= c && c <= '9' {
        (c as int) - ('0' as int)
    } else if 'a' <= c && c <= 'f' {
        (c as int) - ('a' as int) + 10
    } else {
        (c as int) - ('A' as int) + 10
    }
}

/// The value of a hexadecimal digit character.
fn hex_digit(c: char) -> (r: u8)
    requires
        is_hexdigit(c),
    ensures
        r == hex_val(c),
        r < 16,
{
    if '0' <= c && c <= '9' {
        ((c as u32) - ('0' as u32)) as u8
    } else if 'a' <= c && c <= 'f' {
        ((c as u32) - ('a' as u32) + 10) as u8
    } else {
        ((c as u32) - ('A' as u32) + 10) as u8
    }
}

/// The red, green and blue values of a `#RRGGBB` colour.
pub fn parse_hex_triplet(colour: &str) -> (r: (u8, u8, u8))
    requires
        hex_colour(colour@),
    ensures
        r.0 == hex_val(colour@[1]) * 16 + hex_val(colour@[2]),
        r.1 == hex_val(colour@[3]) * 16 + hex_val(colour@[4]),
        r.2 == hex_val(colour@[5]) * 16 + hex_val(colour@[6]),
{
    let v = chars_of(colour);
    assert(is_hexdigit(v@[1]) && is_hexdigit(v@[2]) && is_hexdigit(v@[3]));
    assert(is_hexdigit(v@[4]) && is_hexdigit(v@[5]) && is_hexdigit(v@[6]));
    let r = hex_digit(v[1]) * 16 + hex_digit(v[2]);
    let g = hex_digit(v[3]) * 16 + hex_digit(v[4]);
    let b = hex_digit(v[5]) * 16 + hex_digit(v[6]);
    (r, g, b)
}

/// Checks every palette entry, given as field name and value, reporting the
/// first that is not `#RRGGBB`.
pub fn validate_palette(entries: &Vec<(String, String)>) -> (r: Result<(), String>)
    ensures
        match r {
            Ok(()) => forall|i: int| 0 <= i < entries@.len() ==> hex_colour(#[trigger] entries@[i].1@),
            Err(m) => exists|i: int|
                0 <= i < entries@.len() && !hex_colour(entries@[i].1@) && (forall|j: int|
                    0 <= j < i ==> hex_colour(#[trigger] entries@[j].1@)) && m@ == entries@[i].0@
                    + " must use #RRGGBB"@,
        },
{
    let mut i: usize = 0;
    while i < entries.len()
        invariant
            i <= entries@.len(),
            forall|j: int| 0 <= j < i ==> hex_colour(#[trigger] entries@[j].1@),
        decreases entries.len() - i,
    {
        match validate_hex_colour(entries[i].0.as_str(), entries[i].1.as_str()) {
            Ok(()) => {},
            Err(m) => {
                return Err(m);
            },
        }
        i += 1;
    }
    Ok(())
}

} // verus!
