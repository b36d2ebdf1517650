//! Shortening stored texts for narrow columns: update stamps and paths.
//!
//! Both cut a text at byte offsets, so their contracts speak of the UTF-8
//! bytes of the text; a cut inside a character is the caller's to avoid.
use vstd::prelude::*;
use vstd::string::*;
use vstd::utf8::*;

use crate::text::{owned, push_str};

verus! {

broadcast use vstd::utf8::group_utf8_lib;

/// The text of the bytes of `s` from `from` up to `to`.
fn byte_range(s: &str, from: usize, to: usize) -> (r: String)
    requires
        from <= to <= s.spec_bytes().len(),
        from < s.spec_bytes().len() ==> !is_continuation_byte(s.spec_bytes()[from as int]),
        to < s.spec_bytes().len() ==> !is_continuation_byte(s.spec_bytes()[to as int]),
    ensures
        r@ == decode_utf8(s.spec_bytes().subrange(from as int, to as int)),
{
    let ghost b = s.spec_bytes();
    proof {
        encode_utf8_valid_utf8(s@);
        is_char_boundary_start_end_of_seq(b);
        if from < b.len() {
            is_char_boundary_iff_not_is_continuation_byte(b, from as int);
        }
    }
    let (_, tail) = s.split_at(from);
    let ghost tb = tail.spec_bytes();
    proof {
        assert(tb =~= b.subrange(from as int, b.len() as int));
        encode_utf8_valid_utf8(tail@);
        is_char_boundary_start_end_of_seq(tb);
        if to < b.len() {
            assert(tb[to - from] == b[to as int]);
            is_char_boundary_iff_not_is_continuation_byte(tb, (to - from) as int);
        }
    }
    let (mid, _) = tail.split_at(to - from);
    proof {
        assert(mid.spec_bytes() =~= b.subrange(from as int, to as int));
        encode_utf8_decode_utf8(mid@);
    }
    mid.to_owned()
}

/// A stamp that reads `YYYY-MM-DDTHH:MM...`: at least 16 bytes, with `T`
/// as the eleventh.
pub open spec fn stamp_shaped(b: Seq<u8>) -> bool {
    b.len() >= 16 && b[10] == 84u8
}

/// A stamp of that shape whose seventeenth byte, if any, starts a
/// character, so that its first 16 bytes can be cut off whole.
pub open spec fn stamp_cuts_cleanly(updated_at: Option<&str>) -> bool {
    match updated_at {
        None => true,
        Some(s) => stamp_shaped(s.spec_bytes()) && s.spec_bytes().len() > 16
            ==> !is_continuation_byte(s.spec_bytes()[16]),
    }
}

/// How a stored update stamp reads in the month list.
pub open spec fn stamp_text(updated_at: Option<&str>) -> Seq<char> {
    match updated_at {
        None => "-"@,
        Some(s) => if stamp_shaped(s.spec_bytes()) {
            decode_utf8(s.spec_bytes().subrange(0, 10)) + " | "@ + decode_utf8(
                s.spec_bytes().subrange(11, 16),
            )
        } else {
            s@
        },
    }
}

/// Formats a stored RFC 3339 stamp for the narrow "updated" column: the
/// date and the hour and minute, or the stamp as it is when it is not of
/// that shape, or `-` when there is none.
pub fn format_updated_timestamp(updated_at: Option<&str>) -> (r: String)
    requires
        stamp_cuts_cleanly(updated_at),
    ensures
        r@ == stamp_text(updated_at),
{
    match updated_at {
        None => owned("-"),
        Some(s) => {
            let ghost b = s.spec_bytes();
            let bytes = s.as_bytes();
            if bytes.len() >= 16 {
                if bytes[10] == 84u8 {
                    proof {
                        encode_utf8_valid_utf8(s@);
                        is_char_boundary_iff_not_is_continuation_byte(b, 10);
                        valid_utf8_split(b, 10);
                        let tb = b.subrange(10, b.len() as int);
                        reveal_with_fuel(is_char_boundary, 2);
                        assert(is_char_boundary(tb, 1));
                        is_char_boundary_iff_not_is_continuation_byte(tb, 1);
                        assert(tb[1] == b[11]);
                    }
                    let mut r = byte_range(s, 0, 10);
                    push_str(&mut r, " | ");
                    let tail = byte_range(s, 11, 16);
                    push_str(&mut r, tail.as_str());
                    return r;
                }
            }
            owned(s)
        },
    }
}

/// How a path reads in a header `max_width` bytes wide: whole when it
/// fits, or when the width leaves no room; else `...` and its last
/// `max_width - 3` bytes.
pub open spec fn abbreviated(b: Seq<u8>, text: Seq<char>, max_width: int) -> Seq<char> {
    if b.len() <= max_width || max_width <= 3 {
        text
    } else {
        "..."@ + decode_utf8(b.subrange(b.len() - (max_width - 3), b.len() as int))
    }
}

/// Shortens a path from the left so its tail stays visible in a narrow
/// header.
pub fn abbreviate_path(path: &str, max_width: usize) -> (r: String)
    requires
        path.spec_bytes().len() > max_width > 3 ==> !is_continuation_byte(
            path.spec_bytes()[path.spec_bytes().len() - (max_width - 3)],
        ),
    ensures
        r@ == abbreviated(path.spec_bytes(), path@, max_width as int),
{
    let n = path.as_bytes().len();
    if n <= max_width || max_width <= 3 {
        return owned(path);
    }
    let tail = byte_range(path, n - (max_width - 3), n);
    let mut r = owned("...");
    push_str(&mut r, tail.as_str());
    r
}

} // verus!
