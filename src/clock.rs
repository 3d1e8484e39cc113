//! Clock times: a free-form fragment such as `5pm`, `05:30`, `noon` or `:10`
//! read as a 24-hour (hour, minute) pair.
use vstd::prelude::*;
use crate::text::{
    chars_of, ends_with, ends_with_lit, eq_lit, find_from, find_lit, lower_of, lowercase, pad2,
    parse_u32, parse_u32_chars, push_pad2, remove_space_chars, remove_spaces, slice_of, split_once,
    split_once_lit, text_of, trim, trim_chars,
};

verus! {

/// A fragment without its `am` / `pm` suffix, and which one it had
/// (0: none, 1: am, 2: pm).
pub open spec fn meridian_split(f: Seq<char>) -> (Seq<char>, int) {
    if ends_with(f, "am"@) {
        (f.take(f.len() - 2), 1)
    } else if ends_with(f, "pm"@) {
        (f.take(f.len() - 2), 2)
    } else {
        (f, 0)
    }
}

/// The hour of a 12-hour clock reading on the 24-hour clock.
pub open spec fn with_meridian(h: u32, mer: int) -> u32 {
    if mer == 1 {
        if h == 12 {
            0
        } else {
            h
        }
    } else if mer == 2 && h != 12 {
        (h + 12) as u32
    } else {
        h
    }
}

/// The clock reading of digits and colon once the suffix is gone.
pub open spec fn hour_minute_of(body: Seq<char>, mer: int) -> Option<(u32, u32)> {
    let (hp, mp) = match split_once(body, ":"@) {
        Some((a, b)) => (a, Some(b)),
        None => (body, None::<Seq<char>>),
    };
    let mv = match mp {
        None => Some(0u32),
        Some(m) => if find_from(m, ":"@, 0) is Some {
            None
        } else {
            parse_u32(m)
        },
    };
    match (parse_u32(hp), mv) {
        (Some(h), Some(m)) => if h > 23 || m > 59 || (mer != 0 && h > 12) {
            None
        } else {
            Some((with_meridian(h, mer), m))
        },
        _ => None,
    }
}

/// The (hour, minute) that a fragment names, on text already lower-cased:
/// `midnight`, `noon`, or, with all whitespace removed, an hour with optional
/// `:MM` and an optional `am` / `pm` suffix.
pub open spec fn clock_of(t: Seq<char>) -> Option<(u32, u32)> {
    let tr = trim(t);
    if tr == "midnight"@ {
        Some((0, 0))
    } else if tr == "noon"@ {
        Some((12, 0))
    } else {
        let (body, mer) = meridian_split(remove_spaces(tr));
        hour_minute_of(body, mer)
    }
}

pub open spec fn clock_valid(r: (u32, u32)) -> bool {
    r.0 <= 23 && r.1 <= 59
}

/// `HH:MM`, each part zero-padded to two digits.
pub open spec fn clock_text(h: nat, m: nat) -> Seq<char> {
    pad2(h) + seq![':'] + pad2(m)
}

pub fn clock_chars(t: &Vec<char>) -> (r: Option<(u32, u32)>)
    ensures
        r == clock_of(t@),
        r matches Some(p) ==> clock_valid(p),
{
    let tr = trim_chars(t);
    if eq_lit(&tr, "midnight") {
        return Some((0, 0));
    }
    if eq_lit(&tr, "noon") {
        return Some((12, 0));
    }
    proof {
        reveal_strlit("am");
        reveal_strlit("pm");
    }
    let f = remove_space_chars(&tr);
    let (body, mer): (Vec<char>, u8) = if ends_with_lit(&f, "am") {
        (slice_of(&f, 0, f.len() - 2), 1)
    } else if ends_with_lit(&f, "pm") {
        (slice_of(&f, 0, f.len() - 2), 2)
    } else {
        (f, 0)
    };
    assert(meridian_split(f@) == (body@, mer as int)) by {
        reveal_strlit("am");
        reveal_strlit("pm");
    }
    let (hp, mp): (Vec<char>, Option<Vec<char>>) = match split_once_lit(&body, ":") {
        Some((a, b)) => (a, Some(b)),
        None => (body, None),
    };
    let mv: Option<u32> = match &mp {
        None => Some(0),
        Some(m) => if find_lit(m, ":").is_some() {
            None
        } else {
            parse_u32_chars(m)
        },
    };
    let hv = parse_u32_chars(&hp);
    match (hv, mv) {
        (Some(h), Some(m)) => {
            if h > 23 || m > 59 || (mer != 0 && h > 12) {
                None
            } else if mer == 1 {
                Some((if h == 12 { 0 } else { h }, m))
            } else if mer == 2 && h != 12 {
                Some((h + 12, m))
            } else {
                Some((h, m))
            }
        },
        _ => None,
    }
}

/// Reads a clock time from text that is already lower-cased.
pub fn clock_time(text: &str) -> (r: Option<(u32, u32)>)
    ensures
        r == clock_of(text@),
        r matches Some(p) ==> clock_valid(p),
{
    let t = chars_of(text);
    clock_chars(&t)
}

/// Reads a clock time: trims and lower-cases the fragment, then reads
/// `midnight`, `noon`, or an hour with optional `:MM` and `am` / `pm`.
pub fn parse_time_fragment(raw: &str) -> (r: Option<(u32, u32)>)
    ensures
        r == clock_of(lower_of(raw@)),
        r matches Some(p) ==> clock_valid(p),
{
    let lowered = lowercase(raw);
    clock_time(lowered.as_str())
}

pub fn push_clock(v: &mut Vec<char>, hour: u32, minute: u32)
    ensures
        final(v)@ == old(v)@ + clock_text(hour as nat, minute as nat),
{
    let ghost start = v@;
    push_pad2(v, hour);
    v.push(':');
    push_pad2(v, minute);
    assert(v@ =~= start + clock_text(hour as nat, minute as nat));
}

/// `HH:MM`, each part zero-padded to two digits.
pub fn format_clock(hour: u32, minute: u32) -> (r: String)
    ensures
        r@ == clock_text(hour as nat, minute as nat),
{
    let mut v: Vec<char> = Vec::new();
    push_clock(&mut v, hour, minute);
    assert(v@ =~= clock_text(hour as nat, minute as nat));
    text_of(&v)
}

} // verus!
