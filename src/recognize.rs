//! The phrase recognizers. Each reads one shape of schedule phrase from
//! normalized text (single spaces, keywords in lower case) and builds a
//! schedule record, or declines. Time and weekday fragments are lower-cased
//! before they are read.
use vstd::prelude::*;
use crate::clock::{clock_chars, clock_of, clock_text, push_clock};
use crate::days::{
    day_list_chars, day_list_of, days_text, dom_list_of, dom_values, nats_of, num_texts, push_days,
};
use crate::schedule::{cron_view, opt_view, spec_from_chars, CronSpec, CronView};
use crate::text::{
    lower_of, lowercase, text_of, all_digits, chars_of, dec, digits_value, find_lit, is_digit_char, join, lit_at, pad2,
    parse_u32, parse_u32_chars, push_all, push_decimal, push_lit, push_pad2, skip_of, split_once,
    split_once_lit, split_words, starts_with, starts_with_lit, strip_all, strip_all_lit, trim,
    trim_chars, views, words,
};

verus! {

/// A character that a raw cron field may hold.
pub open spec fn is_cron_char(c: char) -> bool {
    ('a' <= c && c <= 'z') || ('A' <= c && c <= 'Z') || ('0' <= c && c <= '9') || c == '*' || c
        == '?' || c == '/' || c == ',' || c == '-'
}

pub open spec fn raw_of(s: Seq<char>) -> Option<CronView> {
    let ps = words(s);
    if ps.len() == 5 && (forall|i: int, j: int|
        0 <= i < 5 && 0 <= j < ps[i].len() ==> is_cron_char(#[trigger] ps[i][j])) {
        Some(cron_view(ps[0], ps[1], ps[2], ps[3], ps[4], "Raw cron expression"@))
    } else {
        None
    }
}

/// `*` for a step of one, else `*/n`.
pub open spec fn step_field(n: nat) -> Seq<char> {
    if n == 1 {
        "*"@
    } else {
        "*/"@ + dec(n)
    }
}

pub open spec fn is_minute_unit(u: Seq<char>) -> bool {
    u == "min"@ || u == "mins"@ || u == "minute"@ || u == "minutes"@
}

/// The count of an `every [N] min(ute)(s)` phrase: `Some(None)` without one.
pub open spec fn minutes_count(s: Seq<char>) -> Option<Option<Seq<char>>> {
    if !starts_with(s, "every "@) {
        None
    } else {
        let rest = s.skip(6);
        if is_minute_unit(rest) {
            Some(None)
        } else {
            match split_once(rest, " "@) {
                Some((n, u)) => if n.len() > 0 && all_digits(n) && is_minute_unit(u) {
                    Some(Some(n))
                } else {
                    None
                },
                None => None,
            }
        }
    }
}

pub open spec fn every_minutes_of(s: Seq<char>) -> Option<CronView> {
    match minutes_count(s) {
        None => None,
        Some(c) => {
            let amount: nat = match c {
                None => 1,
                Some(n) => match parse_u32(n) {
                    Some(v) => if v == 0 {
                        1
                    } else {
                        v as nat
                    },
                    None => 1,
                },
            };
            Some(
                cron_view(
                    step_field(amount),
                    "*"@,
                    "*"@,
                    "*"@,
                    "*"@,
                    "Every "@ + dec(amount) + " minute(s)"@,
                ),
            )
        },
    }
}

/// The minute of an optional ` at :MM` suffix (one or two digits, at most 59).
pub open spec fn minute_suffix(r: Seq<char>) -> Option<nat> {
    if r.len() == 0 {
        Some(0)
    } else if starts_with(r, " at :"@) {
        let d = r.skip(5);
        if 1 <= d.len() <= 2 && all_digits(d) {
            Some(if digits_value(d) > 59 {
                59
            } else {
                digits_value(d)
            })
        } else {
            None
        }
    } else {
        None
    }
}

pub open spec fn hourly_of(s: Seq<char>) -> Option<CronView> {
    let r = if starts_with(s, "hourly"@) {
        Some(s.skip(6))
    } else if starts_with(s, "every hour"@) {
        Some(s.skip(10))
    } else {
        None
    };
    match r {
        Some(r) => match minute_suffix(r) {
            Some(m) => Some(
                cron_view(
                    dec(m),
                    "*"@,
                    "*"@,
                    "*"@,
                    "*"@,
                    if m == 0 {
                        "Every hour on the hour"@
                    } else {
                        "Every hour at :"@ + pad2(m)
                    },
                ),
            ),
            None => None,
        },
        None => None,
    }
}

/// The count and the rest of an `every N hour(s)` phrase.
pub open spec fn hours_parts(s: Seq<char>) -> Option<(Seq<char>, Seq<char>)> {
    if !starts_with(s, "every "@) {
        None
    } else {
        match split_once(s.skip(6), " "@) {
            Some((n, after)) => if n.len() > 0 && all_digits(n) && starts_with(after, "hour"@) {
                let a = after.skip(4);
                Some((n, if starts_with(a, "s"@) { a.skip(1) } else { a }))
            } else {
                None
            },
            None => None,
        }
    }
}

pub open spec fn every_hours_of(s: Seq<char>) -> Option<CronView> {
    match hours_parts(s) {
        Some((n, tail)) => match minute_suffix(tail) {
            Some(m) => {
                let amount: nat = match parse_u32(n) {
                    Some(v) => if v > 0 {
                        v as nat
                    } else {
                        1
                    },
                    None => 1,
                };
                Some(
                    cron_view(
                        dec(m),
                        step_field(amount),
                        "*"@,
                        "*"@,
                        "*"@,
                        "Every "@ + dec(amount) + " hour(s)"@ + if m == 0 {
                            Seq::<char>::empty()
                        } else {
                            " at :"@ + pad2(m)
                        },
                    ),
                )
            },
            None => None,
        },
        None => None,
    }
}

/// The time fragment of `<keyword>[ at ]<time>`, given the text after the keyword.
pub open spec fn time_after(rest: Seq<char>, at: Seq<char>) -> Option<Seq<char>> {
    if starts_with(rest, at) && rest.len() > at.len() {
        Some(rest.skip(at.len() as int))
    } else if rest.len() > 0 {
        Some(rest)
    } else {
        None
    }
}

pub open spec fn daily_time(s: Seq<char>) -> Option<Seq<char>> {
    let rest = if starts_with(s, "every day"@) {
        Some(s.skip(9))
    } else if starts_with(s, "day"@) {
        Some(s.skip(3))
    } else if starts_with(s, "daily"@) {
        Some(s.skip(5))
    } else {
        None
    };
    match rest {
        Some(r) => time_after(r, " at "@),
        None => None,
    }
}

pub open spec fn daily_of(s: Seq<char>) -> Option<CronView> {
    match daily_time(s) {
        Some(t) => match clock_of(lower_of(t)) {
            Some((h, m)) => Some(
                cron_view(
                    dec(m as nat),
                    dec(h as nat),
                    "*"@,
                    "*"@,
                    "*"@,
                    "Daily at "@ + clock_text(h as nat, m as nat),
                ),
            ),
            None => None,
        },
        None => None,
    }
}

/// Whether a `weekday(s)` / `weekend(s)` phrase names weekends, and its time fragment.
pub open spec fn weekdayish_parts(s: Seq<char>) -> Option<(bool, Seq<char>)> {
    let b = if starts_with(s, "every "@) {
        s.skip(6)
    } else {
        s
    };
    let kind = if starts_with(b, "weekday"@) {
        Some(false)
    } else if starts_with(b, "weekend"@) {
        Some(true)
    } else {
        None
    };
    let after = b.skip(7);
    let r2 = if starts_with(after, "s "@) {
        Some(after.skip(2))
    } else if starts_with(after, " "@) {
        Some(after.skip(1))
    } else {
        None
    };
    match (kind, r2) {
        (Some(k), Some(r)) => match time_after(r, "at "@) {
            Some(t) => Some((k, t)),
            None => None,
        },
        _ => None,
    }
}

pub open spec fn weekdayish_of(s: Seq<char>) -> Option<CronView> {
    match weekdayish_parts(s) {
        Some((weekend, t)) => match clock_of(lower_of(t)) {
            Some((h, m)) => Some(
                cron_view(
                    dec(m as nat),
                    dec(h as nat),
                    "*"@,
                    "*"@,
                    if weekend {
                        "6,0"@
                    } else {
                        "1-5"@
                    },
                    if weekend {
                        "Weekends"@
                    } else {
                        "Weekdays"@
                    } + " at "@ + clock_text(h as nat, m as nat),
                ),
            ),
            None => None,
        },
        None => None,
    }
}

pub open spec fn specific_days_of(s: Seq<char>) -> Option<CronView> {
    match split_once(s, " at "@) {
        Some((p, t)) => match (day_list_of(lower_of(p)), clock_of(lower_of(t))) {
            (Some(ds), Some((h, m))) => Some(
                cron_view(
                    dec(m as nat),
                    dec(h as nat),
                    "*"@,
                    "*"@,
                    join(num_texts(ds), ","@),
                    days_text(ds) + " at "@ + clock_text(h as nat, m as nat),
                ),
            ),
            _ => None,
        },
        None => None,
    }
}

/// A day-of-month list and a time, from `<dates> at <time>`.
pub open spec fn dates_at(r: Seq<char>) -> Option<(Seq<nat>, (u32, u32))> {
    match split_once(r, " at "@) {
        Some((d, t)) => match (dom_list_of(d), clock_of(lower_of(t))) {
            (Some(ds), Some(hm)) => Some((ds, hm)),
            _ => None,
        },
        None => None,
    }
}

pub open spec fn monthly_of(s: Seq<char>) -> Option<CronView> {
    if !starts_with(s, "monthly"@) {
        None
    } else {
        let rem = trim(strip_all(s, "monthly"@));
        if rem.len() == 0 {
            None
        } else if starts_with(rem, "on "@) {
            match dates_at(rem.skip(3)) {
                Some((ds, (h, m))) => Some(
                    cron_view(
                        dec(m as nat),
                        dec(h as nat),
                        join(num_texts(ds), ","@),
                        "*"@,
                        "*"@,
                        "Monthly on "@ + join(num_texts(ds), ", "@) + " at "@ + clock_text(
                            h as nat,
                            m as nat,
                        ),
                    ),
                ),
                None => None,
            }
        } else if starts_with(rem, "at "@) {
            match clock_of(lower_of(rem.skip(3))) {
                Some((h, m)) => Some(
                    cron_view(
                        dec(m as nat),
                        dec(h as nat),
                        "1"@,
                        "*"@,
                        "*"@,
                        "Monthly on day 1 at "@ + clock_text(h as nat, m as nat) + " (default day)"@,
                    ),
                ),
                None => None,
            }
        } else {
            None
        }
    }
}

pub open spec fn on_days_of(s: Seq<char>) -> Option<CronView> {
    if !starts_with(s, "on "@) {
        None
    } else {
        match dates_at(trim(strip_all(s, "on "@))) {
            Some((ds, (h, m))) => Some(
                cron_view(
                    dec(m as nat),
                    dec(h as nat),
                    join(num_texts(ds), ","@),
                    "*"@,
                    "*"@,
                    "On "@ + join(num_texts(ds), ", "@) + " at "@ + clock_text(h as nat, m as nat),
                ),
            ),
            None => None,
        }
    }
}

pub open spec fn first_of(a: Option<CronView>, b: Option<CronView>) -> Option<CronView> {
    if a is Some {
        a
    } else {
        b
    }
}

/// The recognizers after the raw one, tried in order; the first match wins.
pub open spec fn phrase_of(s: Seq<char>) -> Option<CronView> {
    first_of(
        every_minutes_of(s),
        first_of(
            hourly_of(s),
            first_of(
                every_hours_of(s),
                first_of(
                    daily_of(s),
                    first_of(
                        weekdayish_of(s),
                        first_of(specific_days_of(s), first_of(monthly_of(s), on_days_of(s))),
                    ),
                ),
            ),
        ),
    )
}

/// The text lower-cased, as the clock and weekday readers take it.
fn lowered(v: &Vec<char>) -> (r: Vec<char>)
    ensures
        r@ == lower_of(v@),
{
    let s = text_of(v);
    let l = lowercase(s.as_str());
    chars_of(l.as_str())
}

fn lit_vec(lit: &str) -> (r: Vec<char>)
    ensures
        r@ == lit@,
{
    let mut v: Vec<char> = Vec::new();
    push_lit(&mut v, lit);
    assert(v@ =~= lit@);
    v
}

fn dec_vec(n: u32) -> (r: Vec<char>)
    ensures
        r@ == dec(n as nat),
{
    let mut v: Vec<char> = Vec::new();
    push_decimal(&mut v, n);
    assert(v@ =~= dec(n as nat));
    v
}

fn all_digit_chars(s: &Vec<char>) -> (r: bool)
    ensures
        r == all_digits(s@),
{
    let mut k: usize = 0;
    while k < s.len()
        invariant
            k <= s@.len(),
            forall|i: int| 0 <= i < k ==> crate::text::is_digit(#[trigger] s@[i]),
        decreases s@.len() - k,
    {
        if !is_digit_char(s[k]) {
            return false;
        }
        k = k + 1;
    }
    true
}

fn step_vec(n: u32) -> (r: Vec<char>)
    ensures
        r@ == step_field(n as nat),
{
    if n == 1 {
        lit_vec("*")
    } else {
        let mut v = lit_vec("*/");
        push_decimal(&mut v, n);
        v
    }
}


fn is_cron_char_exec(c: char) -> (r: bool)
    ensures
        r == is_cron_char(c),
{
    ('a' <= c && c <= 'z') || ('A' <= c && c <= 'Z') || ('0' <= c && c <= '9') || c == '*' || c
        == '?' || c == '/' || c == ',' || c == '-'
}

pub(crate) fn raw_chars(s: &Vec<char>) -> (r: Option<CronSpec>)
    ensures
        opt_view(r) == raw_of(s@),
{
    let ps = split_words(s);
    if ps.len() != 5 {
        return None;
    }
    let ghost pv = views(ps@);
    let mut i: usize = 0;
    while i < 5
        invariant
            i <= 5,
            ps@.len() == 5,
            pv == views(ps@),
            pv == crate::text::words(s@),
            forall|a: int, j: int|
                0 <= a < i && 0 <= j < pv[a].len() ==> is_cron_char(#[trigger] pv[a][j]),
        decreases 5 - i,
    {
        let p = &ps[i];
        assert(p@ == pv[i as int]);
        let mut j: usize = 0;
        while j < p.len()
            invariant
                i < 5,
                ps@.len() == 5,
                pv == views(ps@),
                pv == crate::text::words(s@),
                p@ == pv[i as int],
                j <= p@.len(),
                forall|a: int, jj: int|
                    0 <= a < i && 0 <= jj < pv[a].len() ==> is_cron_char(#[trigger] pv[a][jj]),
                forall|jj: int| 0 <= jj < j ==> is_cron_char(#[trigger] pv[i as int][jj]),
            decreases p@.len() - j,
        {
            if !is_cron_char_exec(p[j]) {
                assert(!is_cron_char(pv[i as int][j as int]));
                return None;
            }
            j = j + 1;
        }
        i = i + 1;
    }
    let e = lit_vec("Raw cron expression");
    Some(spec_from_chars(&ps[0], &ps[1], &ps[2], &ps[3], &ps[4], &e))
}

fn is_minute_unit_chars(u: &Vec<char>) -> (r: bool)
    ensures
        r == is_minute_unit(u@),
{
    crate::text::eq_lit(u, "min") || crate::text::eq_lit(u, "mins") || crate::text::eq_lit(
        u,
        "minute",
    ) || crate::text::eq_lit(u, "minutes")
}

fn every_minutes_chars(s: &Vec<char>) -> (r: Option<CronSpec>)
    ensures
        opt_view(r) == every_minutes_of(s@),
{
    proof {
        reveal_strlit("every ");
        reveal_strlit(" ");
    }
    if !starts_with_lit(s, "every ") {
        return None;
    }
    let rest = skip_of(s, 6);
    let amount: u32 = if is_minute_unit_chars(&rest) {
        1
    } else {
        match split_once_lit(&rest, " ") {
            Some((n, u)) => {
                if n.len() > 0 && all_digit_chars(&n) && is_minute_unit_chars(&u) {
                    match parse_u32_chars(&n) {
                        Some(v) => if v == 0 {
                            1
                        } else {
                            v
                        },
                        None => 1,
                    }
                } else {
                    return None;
                }
            },
            None => {
                return None;
            },
        }
    };
    let mut e = lit_vec("Every ");
    push_decimal(&mut e, amount);
    push_lit(&mut e, " minute(s)");
    let star = lit_vec("*");
    Some(spec_from_chars(&step_vec(amount), &star, &star, &star, &star, &e))
}

fn minute_suffix_chars(r: &Vec<char>) -> (m: Option<u32>)
    ensures
        m matches Some(v) ==> minute_suffix(r@) == Some(v as nat),
        m is None ==> minute_suffix(r@) is None,
{
    proof {
        reveal_strlit(" at :");
    }
    if r.len() == 0 {
        return Some(0);
    }
    if !starts_with_lit(r, " at :") {
        return None;
    }
    let d = skip_of(r, 5);
    if d.len() < 1 || d.len() > 2 || !all_digit_chars(&d) {
        return None;
    }
    assert(crate::text::is_digit(d@[0]));
    proof {
        reveal_with_fuel(digits_value, 3);
    }
    let v: u32 = if d.len() == 1 {
        assert(d@.drop_last() =~= Seq::<char>::empty());
        assert(digits_value(d@) == crate::text::digit_value(d@[0]));
        d[0] as u32 - 48
    } else {
        assert(crate::text::is_digit(d@[1]));
        assert(d@.drop_last() =~= seq![d@[0]]);
        assert(d@.drop_last().drop_last() =~= Seq::<char>::empty());
        assert(digits_value(d@.drop_last()) == crate::text::digit_value(d@[0]));
        assert(digits_value(d@) == crate::text::digit_value(d@[0]) * 10
            + crate::text::digit_value(d@[1]));
        (d[0] as u32 - 48) * 10 + (d[1] as u32 - 48)
    };
    Some(
        if v > 59 {
            59
        } else {
            v
        },
    )
}

fn hourly_chars(s: &Vec<char>) -> (r: Option<CronSpec>)
    ensures
        opt_view(r) == hourly_of(s@),
{
    proof {
        reveal_strlit("hourly");
        reveal_strlit("every hour");
    }
    let rest = if starts_with_lit(s, "hourly") {
        skip_of(s, 6)
    } else if starts_with_lit(s, "every hour") {
        skip_of(s, 10)
    } else {
        return None;
    };
    let m = match minute_suffix_chars(&rest) {
        Some(m) => m,
        None => {
            return None;
        },
    };
    let e = if m == 0 {
        lit_vec("Every hour on the hour")
    } else {
        let mut e = lit_vec("Every hour at :");
        push_pad2(&mut e, m);
        e
    };
    let star = lit_vec("*");
    Some(spec_from_chars(&dec_vec(m), &star, &star, &star, &star, &e))
}

fn every_hours_chars(s: &Vec<char>) -> (r: Option<CronSpec>)
    ensures
        opt_view(r) == every_hours_of(s@),
{
    proof {
        reveal_strlit("every ");
        reveal_strlit(" ");
        reveal_strlit("hour");
        reveal_strlit("s");
    }
    if !starts_with_lit(s, "every ") {
        return None;
    }
    let rest = skip_of(s, 6);
    let (n, after) = match split_once_lit(&rest, " ") {
        Some(p) => p,
        None => {
            return None;
        },
    };
    if !(n.len() > 0 && all_digit_chars(&n) && starts_with_lit(&after, "hour")) {
        return None;
    }
    let a = skip_of(&after, 4);
    let tail = if starts_with_lit(&a, "s") {
        skip_of(&a, 1)
    } else {
        a
    };
    assert(hours_parts(s@) == Some((n@, tail@)));
    let m = match minute_suffix_chars(&tail) {
        Some(m) => m,
        None => {
            return None;
        },
    };
    let amount: u32 = match parse_u32_chars(&n) {
        Some(v) => if v > 0 {
            v
        } else {
            1
        },
        None => 1,
    };
    let mut e = lit_vec("Every ");
    push_decimal(&mut e, amount);
    push_lit(&mut e, " hour(s)");
    if m != 0 {
        push_lit(&mut e, " at :");
        push_pad2(&mut e, m);
    }
    let star = lit_vec("*");
    let ghost want = "Every "@ + dec(amount as nat) + " hour(s)"@ + if m == 0 {
        Seq::<char>::empty()
    } else {
        " at :"@ + pad2(m as nat)
    };
    assert(e@ =~= want);
    Some(spec_from_chars(&dec_vec(m), &step_vec(amount), &star, &star, &star, &e))
}

fn time_after_chars(rest: &Vec<char>, at: &str) -> (r: Option<Vec<char>>)
    ensures
        r matches Some(t) ==> time_after(rest@, at@) == Some(t@),
        r is None ==> time_after(rest@, at@) is None,
{
    let n = at.unicode_len();
    if starts_with_lit(rest, at) && rest.len() > n {
        Some(skip_of(rest, n))
    } else if rest.len() > 0 {
        Some(crate::text::slice_of(rest, 0, rest.len()))
    } else {
        None
    }
}

fn hour_minute_fields(h: u32, m: u32) -> (r: (Vec<char>, Vec<char>))
    ensures
        r.0@ == dec(m as nat),
        r.1@ == dec(h as nat),
{
    (dec_vec(m), dec_vec(h))
}

fn daily_chars(s: &Vec<char>) -> (r: Option<CronSpec>)
    ensures
        opt_view(r) == daily_of(s@),
{
    proof {
        reveal_strlit("every day");
        reveal_strlit("day");
        reveal_strlit("daily");
    }
    let rest = if starts_with_lit(s, "every day") {
        skip_of(s, 9)
    } else if starts_with_lit(s, "day") {
        skip_of(s, 3)
    } else if starts_with_lit(s, "daily") {
        skip_of(s, 5)
    } else {
        return None;
    };
    let t = match time_after_chars(&rest, " at ") {
        Some(t) => t,
        None => {
            return None;
        },
    };
    let (h, m) = match clock_chars(&lowered(&t)) {
        Some(p) => p,
        None => {
            return None;
        },
    };
    let mut e = lit_vec("Daily at ");
    push_clock(&mut e, h, m);
    let (mf, hf) = hour_minute_fields(h, m);
    let star = lit_vec("*");
    Some(spec_from_chars(&mf, &hf, &star, &star, &star, &e))
}

fn weekdayish_chars(s: &Vec<char>) -> (r: Option<CronSpec>)
    ensures
        opt_view(r) == weekdayish_of(s@),
{
    proof {
        reveal_strlit("every ");
        reveal_strlit("weekday");
        reveal_strlit("weekend");
        reveal_strlit("s ");
        reveal_strlit(" ");
    }
    let b = if starts_with_lit(s, "every ") {
        skip_of(s, 6)
    } else {
        crate::text::slice_of(s, 0, s.len())
    };
    assert(b@ =~= (if starts_with(s@, "every "@) {
        s@.skip(6)
    } else {
        s@
    }));
    let weekend = if starts_with_lit(&b, "weekday") {
        false
    } else if starts_with_lit(&b, "weekend") {
        true
    } else {
        return None;
    };
    let after = skip_of(&b, 7);
    let r2 = if starts_with_lit(&after, "s ") {
        skip_of(&after, 2)
    } else if starts_with_lit(&after, " ") {
        skip_of(&after, 1)
    } else {
        return None;
    };
    let t = match time_after_chars(&r2, "at ") {
        Some(t) => t,
        None => {
            return None;
        },
    };
    assert(weekdayish_parts(s@) == Some((weekend, t@)));
    let (h, m) = match clock_chars(&lowered(&t)) {
        Some(p) => p,
        None => {
            return None;
        },
    };
    let (dow, mut e) = if weekend {
        (lit_vec("6,0"), lit_vec("Weekends"))
    } else {
        (lit_vec("1-5"), lit_vec("Weekdays"))
    };
    push_lit(&mut e, " at ");
    push_clock(&mut e, h, m);
    let (mf, hf) = hour_minute_fields(h, m);
    let star = lit_vec("*");
    Some(spec_from_chars(&mf, &hf, &star, &star, &dow, &e))
}

fn push_list(v: &mut Vec<char>, ds: &Vec<u32>, sep: &str)
    ensures
        final(v)@ == old(v)@ + join(num_texts(nats_of(ds@)), sep@),
{
    let texts = crate::days::decimal_texts(ds);
    let j = crate::text::join_with(&texts, sep);
    push_all(v, &j);
}

fn specific_days_chars(s: &Vec<char>) -> (r: Option<CronSpec>)
    ensures
        opt_view(r) == specific_days_of(s@),
{
    let (p, t) = match split_once_lit(s, " at ") {
        Some(x) => x,
        None => {
            return None;
        },
    };
    let days = match day_list_chars(&lowered(&p)) {
        Some(d) => d,
        None => {
            return None;
        },
    };
    let (h, m) = match clock_chars(&lowered(&t)) {
        Some(x) => x,
        None => {
            return None;
        },
    };
    let ghost ds = days@.map_values(|d: u8| d as nat);
    let mut wide: Vec<u32> = Vec::new();
    let mut j: usize = 0;
    while j < days.len()
        invariant
            j <= days@.len(),
            nats_of(wide@) == days@.take(j as int).map_values(|d: u8| d as nat),
        decreases days@.len() - j,
    {
        let ghost prev = wide@;
        wide.push(days[j] as u32);
        assert(nats_of(wide@) =~= nats_of(prev).push(days@[j as int] as nat));
        assert(days@.take(j + 1) =~= days@.take(j as int).push(days@[j as int]));
        assert(days@.take(j + 1).map_values(|d: u8| d as nat) =~= days@.take(
            j as int,
        ).map_values(|d: u8| d as nat).push(days@[j as int] as nat));
        j = j + 1;
    }
    assert(days@.take(j as int) =~= days@);
    let mut dow: Vec<char> = Vec::new();
    push_list(&mut dow, &wide, ",");
    let mut e: Vec<char> = Vec::new();
    push_days(&mut e, days.as_slice());
    push_lit(&mut e, " at ");
    push_clock(&mut e, h, m);
    assert(dow@ =~= join(num_texts(ds), ","@));
    assert(e@ =~= days_text(ds) + " at "@ + clock_text(h as nat, m as nat));
    let (mf, hf) = hour_minute_fields(h, m);
    let star = lit_vec("*");
    Some(spec_from_chars(&mf, &hf, &star, &star, &dow, &e))
}

fn dates_at_chars(r: &Vec<char>) -> (x: Option<(Vec<u32>, u32, u32)>)
    ensures
        x matches Some((ds, h, m)) ==> dates_at(r@) == Some((nats_of(ds@), (h, m))),
        x is None ==> dates_at(r@) is None,
{
    let (d, t) = match split_once_lit(r, " at ") {
        Some(p) => p,
        None => {
            return None;
        },
    };
    let ds = match dom_values(&d) {
        Some(v) => v,
        None => {
            return None;
        },
    };
    match clock_chars(&lowered(&t)) {
        Some((h, m)) => Some((ds, h, m)),
        None => None,
    }
}

fn monthly_chars(s: &Vec<char>) -> (r: Option<CronSpec>)
    ensures
        opt_view(r) == monthly_of(s@),
{
    proof {
        reveal_strlit("monthly");
        reveal_strlit("on ");
        reveal_strlit("at ");
    }
    if !starts_with_lit(s, "monthly") {
        return None;
    }
    let stripped = strip_all_lit(s, "monthly");
    let rem = trim_chars(&stripped);
    if rem.len() == 0 {
        return None;
    }
    let star = lit_vec("*");
    if starts_with_lit(&rem, "on ") {
        let rest = skip_of(&rem, 3);
        let (ds, h, m) = match dates_at_chars(&rest) {
            Some(x) => x,
            None => {
                return None;
            },
        };
        let mut dom: Vec<char> = Vec::new();
        push_list(&mut dom, &ds, ",");
        let mut e = lit_vec("Monthly on ");
        push_list(&mut e, &ds, ", ");
        push_lit(&mut e, " at ");
        push_clock(&mut e, h, m);
        let (mf, hf) = hour_minute_fields(h, m);
        assert(dom@ =~= join(num_texts(nats_of(ds@)), ","@));
        return Some(spec_from_chars(&mf, &hf, &dom, &star, &star, &e));
    }
    if starts_with_lit(&rem, "at ") {
        let t = skip_of(&rem, 3);
        let (h, m) = match clock_chars(&lowered(&t)) {
            Some(x) => x,
            None => {
                return None;
            },
        };
        let mut e = lit_vec("Monthly on day 1 at ");
        push_clock(&mut e, h, m);
        push_lit(&mut e, " (default day)");
        let (mf, hf) = hour_minute_fields(h, m);
        let one = lit_vec("1");
        return Some(spec_from_chars(&mf, &hf, &one, &star, &star, &e));
    }
    None
}

fn on_days_chars(s: &Vec<char>) -> (r: Option<CronSpec>)
    ensures
        opt_view(r) == on_days_of(s@),
{
    proof {
        reveal_strlit("on ");
    }
    if !starts_with_lit(s, "on ") {
        return None;
    }
    let stripped = strip_all_lit(s, "on ");
    let rem = trim_chars(&stripped);
    let (ds, h, m) = match dates_at_chars(&rem) {
        Some(x) => x,
        None => {
            return None;
        },
    };
    let mut dom: Vec<char> = Vec::new();
    push_list(&mut dom, &ds, ",");
    let mut e = lit_vec("On ");
    push_list(&mut e, &ds, ", ");
    push_lit(&mut e, " at ");
    push_clock(&mut e, h, m);
    let (mf, hf) = hour_minute_fields(h, m);
    let star = lit_vec("*");
    assert(dom@ =~= join(num_texts(nats_of(ds@)), ","@));
    Some(spec_from_chars(&mf, &hf, &dom, &star, &star, &e))
}

/// Tries the phrase recognizers in order on normalized text.
pub fn phrase_chars(s: &Vec<char>) -> (r: Option<CronSpec>)
    ensures
        opt_view(r) == phrase_of(s@),
{
    let r = every_minutes_chars(s);
    if r.is_some() {
        return r;
    }
    let r = hourly_chars(s);
    if r.is_some() {
        return r;
    }
    let r = every_hours_chars(s);
    if r.is_some() {
        return r;
    }
    let r = daily_chars(s);
    if r.is_some() {
        return r;
    }
    let r = weekdayish_chars(s);
    if r.is_some() {
        return r;
    }
    let r = specific_days_chars(s);
    if r.is_some() {
        return r;
    }
    let r = monthly_chars(s);
    if r.is_some() {
        return r;
    }
    on_days_chars(s)
}

/// A raw five-field cron expression, passed through as it stands.
pub fn try_parse_raw(input: &str) -> (r: Option<CronSpec>)
    ensures
        opt_view(r) == raw_of(input@),
{
    raw_chars(&chars_of(input))
}

/// `every [N] min(ute)(s)`.
pub fn try_parse_every_minutes(input: &str) -> (r: Option<CronSpec>)
    ensures
        opt_view(r) == every_minutes_of(input@),
{
    every_minutes_chars(&chars_of(input))
}

/// `hourly` or `every hour`, with an optional ` at :MM`.
pub fn try_parse_hourly(input: &str) -> (r: Option<CronSpec>)
    ensures
        opt_view(r) == hourly_of(input@),
{
    hourly_chars(&chars_of(input))
}

/// `every N hour(s)`, with an optional ` at :MM`.
pub fn try_parse_every_hours(input: &str) -> (r: Option<CronSpec>)
    ensures
        opt_view(r) == every_hours_of(input@),
{
    every_hours_chars(&chars_of(input))
}

/// `day`, `daily` or `every day`, then an optional ` at ` and a time.
pub fn try_parse_daily(input: &str) -> (r: Option<CronSpec>)
    ensures
        opt_view(r) == daily_of(input@),
{
    daily_chars(&chars_of(input))
}

/// `[every ]weekday(s)` or `[every ]weekend(s)`, then an optional `at ` and a time.
pub fn try_parse_weekdayish(input: &str) -> (r: Option<CronSpec>)
    ensures
        opt_view(r) == weekdayish_of(input@),
{
    weekdayish_chars(&chars_of(input))
}

/// `<weekday list> at <time>`.
pub fn try_parse_specific_days(input: &str) -> (r: Option<CronSpec>)
    ensures
        opt_view(r) == specific_days_of(input@),
{
    specific_days_chars(&chars_of(input))
}

/// `monthly on <dates> at <time>`, or `monthly at <time>` for day 1.
pub fn try_parse_monthly(input: &str) -> (r: Option<CronSpec>)
    ensures
        opt_view(r) == monthly_of(input@),
{
    monthly_chars(&chars_of(input))
}

/// `on <dates> at <time>`.
pub fn try_parse_on_days(input: &str) -> (r: Option<CronSpec>)
    ensures
        opt_view(r) == on_days_of(input@),
{
    on_days_chars(&chars_of(input))
}

} // verus!
