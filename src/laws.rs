//! Properties of the parsers, stated over their spec functions and proved.
use vstd::prelude::*;
use crate::clock::{clock_of, clock_text, hour_minute_of, meridian_split};
use crate::days::{
    day_code, day_list_of, day_set, day_tokens, day_tokens_ok, dom_list_of, dom_set, dom_tokens,
    members_below, num_texts, token_day,
};
use crate::expression::{dashes_unified, expression_result, normalized_result, ParseError};
use crate::recognize::{
    daily_of, every_hours_of, every_minutes_of, hourly_of, monthly_of, on_days_of, phrase_of,
    raw_of, specific_days_of, step_field, weekdayish_of,
};
use crate::schedule::CronView;
use crate::text::{
    collapse_spaces, dec, digit_char, digits_value, find_from, is_space, join, lower_of, match_at,
    pad2, parse_u32, replace, replace_from, split_once, trim, trim_end, trim_start,
};

verus! {

pub open spec fn strictly_ascending(ds: Seq<nat>) -> bool {
    forall|i: int, j: int| 0 <= i < j < ds.len() ==> ds[i] < ds[j]
}

proof fn lemma_members_below(s: Set<nat>, n: nat)
    ensures
        strictly_ascending(members_below(s, n)),
        forall|x: nat| #[trigger] members_below(s, n).contains(x) <==> (x < n && s.contains(x)),
    decreases n,
{
    if n > 0 {
        let m = (n - 1) as nat;
        lemma_members_below(s, m);
        let r = members_below(s, m);
        if s.contains(m) {
            assert forall|x: nat| #[trigger] r.push(m).contains(x) <==> (x < n && s.contains(x)) by {
                if r.push(m).contains(x) {
                    let k = choose|k: int| 0 <= k < r.push(m).len() && r.push(m)[k] == x;
                    if k < r.len() {
                        assert(r.contains(x));
                    }
                }
                if x < n && s.contains(x) && x != m {
                    assert(r.contains(x));
                    let k = choose|k: int| 0 <= k < r.len() && r[k] == x;
                    assert(r.push(m)[k] == x);
                }
                if x == m {
                    assert(r.push(m)[r.len() as int] == x);
                }
            }
            assert forall|i: int, j: int| 0 <= i < j < r.push(m).len() implies r.push(m)[i] < r.push(
                m,
            )[j] by {
                if j == r.len() {
                    assert(r.contains(r[i]));
                }
            }
        }
    }
}

/// A weekday list comes out strictly ascending, so without repeats, and
/// holds exactly the days that its tokens name.
pub proof fn lemma_day_list_sorted_unique(t: Seq<char>)
    requires
        day_list_of(t) is Some,
    ensures
        strictly_ascending(day_list_of(t)->0),
        forall|x: nat| #[trigger]
            (day_list_of(t)->0).contains(x) <==> day_set(day_tokens(t)).contains(x),
{
    let s = day_set(day_tokens(t));
    lemma_members_below(s, 7);
    assert forall|x: nat| s.contains(x) implies x < 7 by {
        let ts = day_tokens(t);
        let i = choose|i: int| 0 <= i < ts.len() && token_day(#[trigger] ts[i]) == Some(x);
    }
}

/// A day-of-month list comes out strictly ascending, so without repeats, and
/// holds exactly the days from 1 to 31 that its tokens give.
pub proof fn lemma_dom_list_sorted_unique(t: Seq<char>)
    requires
        dom_list_of(t) is Some,
    ensures
        strictly_ascending(dom_list_of(t)->0),
        forall|x: nat| #[trigger]
            (dom_list_of(t)->0).contains(x) <==> dom_set(dom_tokens(t)).contains(x),
        forall|x: nat| #[trigger] dom_set(dom_tokens(t)).contains(x) ==> 1 <= x <= 31,
{
    let s = dom_set(dom_tokens(t));
    lemma_members_below(s, 32);
    assert forall|x: nat| #[trigger] s.contains(x) implies 1 <= x <= 31 by {
        let ts = dom_tokens(t);
        let i = choose|i: int| 0 <= i < ts.len() && crate::days::token_dom(#[trigger] ts[i]) == Some(x);
    }
}

/// The weekday list of a fragment depends only on which tokens occur, not
/// on their order or on repeats.
pub proof fn lemma_day_list_order_free(t1: Seq<char>, t2: Seq<char>)
    requires
        forall|w: Seq<char>| #[trigger] day_tokens(t1).contains(w) <==> day_tokens(t2).contains(w),
    ensures
        day_list_of(t1) == day_list_of(t2),
{
    let a = day_tokens(t1);
    let b = day_tokens(t2);
    assert forall|x: nat| #[trigger] day_set(a).contains(x) implies day_set(b).contains(x) by {
        let i = choose|i: int| 0 <= i < a.len() && token_day(#[trigger] a[i]) == Some(x);
        assert(a.contains(a[i]));
        let j = choose|j: int| 0 <= j < b.len() && b[j] == a[i];
        assert(token_day(b[j]) == Some(x));
    }
    assert forall|x: nat| #[trigger] day_set(b).contains(x) implies day_set(a).contains(x) by {
        let i = choose|i: int| 0 <= i < b.len() && token_day(#[trigger] b[i]) == Some(x);
        assert(b.contains(b[i]));
        assert(a.contains(b[i]));
        let j = choose|j: int| 0 <= j < a.len() && a[j] == b[i];
        assert(token_day(a[j]) == Some(x));
    }
    assert(day_set(a) =~= day_set(b));
    if day_tokens_ok(a) {
        assert forall|j: int| 0 <= j < b.len() implies crate::days::is_filler(#[trigger] b[j])
            || token_day(b[j]) is Some by {
            assert(b.contains(b[j]));
            assert(a.contains(b[j]));
            let i = choose|i: int| 0 <= i < a.len() && a[i] == b[j];
        }
    }
    if day_tokens_ok(b) {
        assert forall|j: int| 0 <= j < a.len() implies crate::days::is_filler(#[trigger] a[j])
            || token_day(a[j]) is Some by {
            assert(a.contains(a[j]));
            let i = choose|i: int| 0 <= i < b.len() && b[i] == a[j];
        }
    }
}

/// A day name with a plural `s` added names the same day.
pub proof fn lemma_day_plural(w: Seq<char>)
    requires
        day_code(w) is Some,
    ensures
        token_day(w.push('s')) == token_day(w),
        token_day(w) == Some((day_code(w)->0) as nat),
{
    reveal_strlit("sun");
    reveal_strlit("sunday");
    reveal_strlit("mon");
    reveal_strlit("monday");
    reveal_strlit("tue");
    reveal_strlit("tues");
    reveal_strlit("tuesday");
    reveal_strlit("wed");
    reveal_strlit("weds");
    reveal_strlit("wednesday");
    reveal_strlit("thu");
    reveal_strlit("thur");
    reveal_strlit("thurs");
    reveal_strlit("thursday");
    reveal_strlit("fri");
    reveal_strlit("friday");
    reveal_strlit("sat");
    reveal_strlit("saturday");
    reveal_strlit("every");
    reveal_strlit("each");
    reveal_strlit("on");
    reveal_strlit("week");
    reveal_strlit("weeks");
    reveal_strlit("weekly");
    reveal_strlit("the");
    reveal_strlit("and");
    let p = w.push('s');
    assert(p.drop_last() =~= w);
    if w == "sun"@ {
        assert(w[0] != "and"@[0]);
        assert(w[0] != "mon"@[0]);
        assert(w[0] != "tue"@[0]);
        assert(w[0] != "wed"@[0]);
        assert(w[0] != "thu"@[0]);
        assert(w[0] != "fri"@[0]);
        assert(w[1] != "sat"@[1]);
        assert(p[0] != "each"@[0]);
        assert(p[0] != "week"@[0]);
        assert(w[0] != "the"@[0]);
        assert(w.last() != 's');
    }
    if w == "sunday"@ {
        assert(w[0] != "monday"@[0]);
        assert(w[0] != "friday"@[0]);
        assert(w[0] != "weekly"@[0]);
        assert(w.last() != 's');
    }
    if w == "mon"@ {
        assert(w[0] != "and"@[0]);
        assert(w[0] != "sun"@[0]);
        assert(w[0] != "tue"@[0]);
        assert(w[0] != "wed"@[0]);
        assert(w[0] != "thu"@[0]);
        assert(w[0] != "fri"@[0]);
        assert(w[0] != "sat"@[0]);
        assert(p[0] != "each"@[0]);
        assert(p[0] != "week"@[0]);
        assert(w[0] != "the"@[0]);
        assert(w.last() != 's');
    }
    if w == "monday"@ {
        assert(w[0] != "sunday"@[0]);
        assert(w[0] != "friday"@[0]);
        assert(w[0] != "weekly"@[0]);
        assert(w.last() != 's');
    }
    if w == "tue"@ {
        assert(w[0] != "and"@[0]);
        assert(w[0] != "sun"@[0]);
        assert(w[0] != "mon"@[0]);
        assert(w[0] != "wed"@[0]);
        assert(w[1] != "thu"@[1]);
        assert(w[0] != "fri"@[0]);
        assert(w[0] != "sat"@[0]);
        assert(p[0] != "each"@[0]);
        assert(p[0] != "week"@[0]);
        assert(w[1] != "the"@[1]);
        assert(w.last() != 's');
    }
    if w == "tues"@ {
        assert(w[0] != "weds"@[0]);
        assert(w[1] != "thur"@[1]);
        let q = w.drop_last();
        assert(q[0] != "sun"@[0]);
        assert(q[0] != "mon"@[0]);
        assert(q[0] != "wed"@[0]);
        assert(q[1] != "thu"@[1]);
        assert(q[0] != "fri"@[0]);
        assert(q[0] != "sat"@[0]);
        assert(p[0] != "every"@[0]);
        assert(w[0] != "each"@[0]);
        assert(w[0] != "week"@[0]);
        assert(p[0] != "weeks"@[0]);
        assert(w.drop_last() =~= "tue"@);
    }
    if w == "tuesday"@ {

        assert(w.last() != 's');
    }
    if w == "wed"@ {
        assert(w[0] != "and"@[0]);
        assert(w[0] != "sun"@[0]);
        assert(w[0] != "mon"@[0]);
        assert(w[0] != "tue"@[0]);
        assert(w[0] != "thu"@[0]);
        assert(w[0] != "fri"@[0]);
        assert(w[0] != "sat"@[0]);
        assert(p[0] != "each"@[0]);
        assert(p[2] != "week"@[2]);
        assert(w[0] != "the"@[0]);
        assert(w.last() != 's');
    }
    if w == "weds"@ {
        assert(w[0] != "tues"@[0]);
        assert(w[0] != "thur"@[0]);
        let q = w.drop_last();
        assert(q[0] != "sun"@[0]);
        assert(q[0] != "mon"@[0]);
        assert(q[0] != "tue"@[0]);
        assert(q[0] != "thu"@[0]);
        assert(q[0] != "fri"@[0]);
        assert(q[0] != "sat"@[0]);
        assert(p[0] != "every"@[0]);
        assert(w[0] != "each"@[0]);
        assert(w[2] != "week"@[2]);
        assert(p[2] != "weeks"@[2]);
        assert(w.drop_last() =~= "wed"@);
    }
    if w == "wednesday"@ {

        assert(w.last() != 's');
    }
    if w == "thu"@ {
        assert(w[0] != "and"@[0]);
        assert(w[0] != "sun"@[0]);
        assert(w[0] != "mon"@[0]);
        assert(w[1] != "tue"@[1]);
        assert(w[0] != "wed"@[0]);
        assert(w[0] != "fri"@[0]);
        assert(w[0] != "sat"@[0]);
        assert(p[0] != "each"@[0]);
        assert(p[0] != "week"@[0]);
        assert(w[2] != "the"@[2]);
        assert(w.last() != 's');
    }
    if w == "thur"@ {
        assert(w[1] != "tues"@[1]);
        assert(w[0] != "weds"@[0]);
        assert(p[0] != "every"@[0]);
        assert(w[0] != "each"@[0]);
        assert(w[0] != "week"@[0]);
        assert(p[0] != "weeks"@[0]);
        assert(w.last() != 's');
    }
    if w == "thurs"@ {
        let q = w.drop_last();
        assert(q[1] != "tues"@[1]);
        assert(q[0] != "weds"@[0]);
        assert(w[0] != "every"@[0]);
        assert(w[0] != "weeks"@[0]);
        assert(p[0] != "weekly"@[0]);
        assert(w.drop_last() =~= "thur"@);
    }
    if w == "thursday"@ {
        assert(w[0] != "saturday"@[0]);
        assert(w.last() != 's');
    }
    if w == "fri"@ {
        assert(w[0] != "and"@[0]);
        assert(w[0] != "sun"@[0]);
        assert(w[0] != "mon"@[0]);
        assert(w[0] != "tue"@[0]);
        assert(w[0] != "wed"@[0]);
        assert(w[0] != "thu"@[0]);
        assert(w[0] != "sat"@[0]);
        assert(p[0] != "each"@[0]);
        assert(p[0] != "week"@[0]);
        assert(w[0] != "the"@[0]);
        assert(w.last() != 's');
    }
    if w == "friday"@ {
        assert(w[0] != "sunday"@[0]);
        assert(w[0] != "monday"@[0]);
        assert(w[0] != "weekly"@[0]);
        assert(w.last() != 's');
    }
    if w == "sat"@ {
        assert(w[0] != "and"@[0]);
        assert(w[1] != "sun"@[1]);
        assert(w[0] != "mon"@[0]);
        assert(w[0] != "tue"@[0]);
        assert(w[0] != "wed"@[0]);
        assert(w[0] != "thu"@[0]);
        assert(w[0] != "fri"@[0]);
        assert(p[0] != "each"@[0]);
        assert(p[0] != "week"@[0]);
        assert(w[0] != "the"@[0]);
        assert(w.last() != 's');
    }
    if w == "saturday"@ {
        assert(w[0] != "thursday"@[0]);
        assert(w.last() != 's');
    }
}

proof fn lemma_all_space_trims_away(s: Seq<char>)
    requires
        forall|i: int| 0 <= i < s.len() ==> is_space(#[trigger] s[i]),
    ensures
        trim_start(s).len() == 0,
    decreases s.len(),
{
    if s.len() > 0 {
        lemma_all_space_trims_away(s.drop_first());
    }
}

/// An empty or whitespace-only expression fails with `EmptyExpression`.
pub proof fn lemma_blank_is_empty(s: Seq<char>)
    requires
        forall|i: int| 0 <= i < s.len() ==> is_space(#[trigger] s[i]),
    ensures
        expression_result(s) == Err::<CronView, ParseError>(ParseError::EmptyExpression),
{
    lemma_all_space_trims_away(s);
    assert(trim_end(trim_start(s)) == trim_start(s));
}

/// A nonblank expression that is no raw cron line and that no phrase
/// recognizer accepts fails with `UnsupportedPhrasing`.
pub proof fn lemma_unmatched_is_unsupported(s: Seq<char>)
    requires
        trim(s).len() > 0,
        raw_of(trim(s)) is None,
        phrase_of(dashes_unified(lower_of(collapse_spaces(trim(s))))) is None,
    ensures
        expression_result(s) == Err::<CronView, ParseError>(ParseError::UnsupportedPhrasing),
{
}


pub open spec fn nums_within(ds: Seq<nat>, lo: nat, hi: nat) -> bool {
    forall|i: int| 0 <= i < ds.len() ==> lo <= #[trigger] ds[i] <= hi
}

/// A cron field whose numbers lie in `lo..=hi`: `*`, a step `*/n`, a comma
/// list of numbers, or a range `a-b`.
pub open spec fn field_within(f: Seq<char>, lo: nat, hi: nat) -> bool {
    f == "*"@ || (exists|n: nat| f == "*/"@ + dec(n)) || (exists|ds: Seq<nat>|
        ds.len() > 0 && nums_within(ds, lo, hi) && f == join(num_texts(ds), ","@)) || (exists|
        a: nat,
        b: nat,
    | lo <= a && a <= b && b <= hi && f == dec(a) + "-"@ + dec(b))
}

/// Five populated fields within their domains, and the month `*`.
pub open spec fn record_within(c: CronView) -> bool {
    field_within(c.minute, 0, 59) && field_within(c.hour, 0, 23) && field_within(
        c.day_of_month,
        1,
        31,
    ) && c.month == "*"@ && field_within(c.day_of_week, 0, 6)
}

proof fn lemma_list_within(ds: Seq<nat>, lo: nat, hi: nat)
    requires
        ds.len() > 0,
        nums_within(ds, lo, hi),
    ensures
        field_within(join(num_texts(ds), ","@), lo, hi),
{
}

proof fn lemma_single_within(n: nat, lo: nat, hi: nat)
    requires
        lo <= n <= hi,
    ensures
        field_within(dec(n), lo, hi),
{
    let ds = seq![n];
    assert(num_texts(ds) =~= seq![dec(n)]);
    assert(join(num_texts(ds), ","@) == dec(n));
    lemma_list_within(ds, lo, hi);
}

proof fn lemma_star_within(lo: nat, hi: nat)
    ensures
        field_within("*"@, lo, hi),
{
}

proof fn lemma_step_within(n: nat, lo: nat, hi: nat)
    ensures
        field_within(step_field(n), lo, hi),
{
    if n != 1 {
        assert(step_field(n) == "*/"@ + dec(n));
    }
}

proof fn lemma_clock_bounds(t: Seq<char>)
    requires
        clock_of(t) is Some,
    ensures
        (clock_of(t)->0).0 <= 23,
        (clock_of(t)->0).1 <= 59,
{
}

proof fn lemma_clock_fields(t: Seq<char>)
    requires
        clock_of(t) is Some,
    ensures
        field_within(dec((clock_of(t)->0).1 as nat), 0, 59),
        field_within(dec((clock_of(t)->0).0 as nat), 0, 23),
{
    lemma_clock_bounds(t);
    lemma_single_within((clock_of(t)->0).1 as nat, 0, 59);
    lemma_single_within((clock_of(t)->0).0 as nat, 0, 23);
}

proof fn lemma_weekday_fields()
    ensures
        field_within("1-5"@, 0, 6),
        field_within("6,0"@, 0, 6),
{
    reveal_strlit("1-5");
    reveal_strlit("6,0");
    reveal_strlit("-");
    reveal_strlit(",");
    assert(dec(1) =~= seq!['1']);
    assert(dec(5) =~= seq!['5']);
    assert("1-5"@ =~= dec(1) + "-"@ + dec(5));
    let ds = seq![6nat, 0nat];
    assert(num_texts(ds) =~= seq![dec(6), dec(0)]);
    assert(num_texts(ds).drop_last() =~= seq![dec(6)]);
    assert(dec(6) =~= seq!['6']);
    assert(dec(0) =~= seq!['0']);
    assert(join(num_texts(ds).drop_last(), ","@) == dec(6));
    assert(join(num_texts(ds), ","@) == dec(6) + ","@ + dec(0));
    assert("6,0"@ =~= join(num_texts(ds), ","@));
    lemma_list_within(ds, 0, 6);
}

proof fn lemma_phrase_within(s: Seq<char>)
    requires
        phrase_of(s) is Some,
    ensures
        record_within(phrase_of(s)->0),
{
    lemma_star_within(0, 59);
    lemma_star_within(0, 23);
    lemma_star_within(1, 31);
    lemma_star_within(0, 6);
    if every_minutes_of(s) is Some {
        let c = every_minutes_of(s)->0;
        let a = choose|a: nat| c.minute == step_field(a);
        lemma_step_within(a, 0, 59);
    } else if hourly_of(s) is Some {
        let c = hourly_of(s)->0;
        let m = choose|m: nat| m <= 59 && c.minute == dec(m);
        lemma_single_within(m, 0, 59);
    } else if every_hours_of(s) is Some {
        let c = every_hours_of(s)->0;
        let m = choose|m: nat| m <= 59 && c.minute == dec(m);
        lemma_single_within(m, 0, 59);
        let a = choose|a: nat| c.hour == step_field(a);
        lemma_step_within(a, 0, 23);
    } else if daily_of(s) is Some {
        let t = crate::recognize::daily_time(s)->0;
        lemma_clock_fields(lower_of(t));
    } else if weekdayish_of(s) is Some {
        let t = (crate::recognize::weekdayish_parts(s)->0).1;
        lemma_clock_fields(lower_of(t));
        lemma_weekday_fields();
    } else if specific_days_of(s) is Some {
        let (p, t) = crate::text::split_once(s, " at "@)->0;
        lemma_clock_fields(lower_of(t));
        lemma_day_list_sorted_unique(lower_of(p));
        let ds = day_list_of(lower_of(p))->0;
        assert forall|i: int| 0 <= i < ds.len() implies 0 <= #[trigger] ds[i] <= 6 by {
            assert(ds.contains(ds[i]));
            let ts = day_tokens(lower_of(p));
            let k = choose|k: int| 0 <= k < ts.len() && token_day(#[trigger] ts[k]) == Some(ds[i]);
        }
        lemma_list_within(ds, 0, 6);
    } else if monthly_of(s) is Some {
        let rem = trim(crate::text::strip_all(s, "monthly"@));
        if crate::text::starts_with(rem, "on "@) {
            let r = rem.skip(3);
            let (d, t) = crate::text::split_once(r, " at "@)->0;
            lemma_clock_fields(lower_of(t));
            lemma_dom_within(d);
        } else {
            lemma_clock_fields(lower_of(rem.skip(3)));
            reveal_strlit("1");
            assert(dec(1) =~= "1"@);
            lemma_single_within(1, 1, 31);
        }
    } else {
        let r = trim(crate::text::strip_all(s, "on "@));
        let (d, t) = crate::text::split_once(r, " at "@)->0;
        lemma_clock_fields(lower_of(t));
        lemma_dom_within(d);
    }
}

proof fn lemma_dom_within(d: Seq<char>)
    requires
        dom_list_of(d) is Some,
    ensures
        field_within(join(num_texts(dom_list_of(d)->0), ","@), 1, 31),
{
    lemma_dom_list_sorted_unique(d);
    let ds = dom_list_of(d)->0;
    assert forall|i: int| 0 <= i < ds.len() implies 1 <= #[trigger] ds[i] <= 31 by {
        assert(ds.contains(ds[i]));
    }
    lemma_list_within(ds, 1, 31);
}

/// Every schedule that the phrase recognizers produce has its five fields
/// populated, each numeric field within its domain, and the month `*`.
pub proof fn lemma_normalized_within(l: Seq<char>)
    requires
        normalized_result(l) is Ok,
    ensures
        record_within(normalized_result(l)->Ok_0),
{
    lemma_phrase_within(dashes_unified(l));
}

/// Every parse of an expression that is not a raw cron line yields fields
/// within their domains; a raw line passes through unchecked.
pub proof fn lemma_expression_within(s: Seq<char>)
    requires
        expression_result(s) is Ok,
        raw_of(trim(s)) is None,
    ensures
        record_within(expression_result(s)->Ok_0),
{
    lemma_normalized_within(lower_of(collapse_spaces(trim(s))));
}


proof fn lemma_pad2_digits(n: nat)
    requires
        n < 100,
    ensures
        pad2(n) == seq![digit_char(n / 10), digit_char(n % 10)],
{
    if n >= 10 {
        assert(dec(n / 10) == seq![digit_char(n / 10)]);
        assert(dec(n) =~= seq![digit_char(n / 10), digit_char(n % 10)]);
    } else {
        assert(pad2(n) =~= seq![digit_char(n / 10), digit_char(n % 10)]);
    }
}

proof fn lemma_no_spaces(s: Seq<char>)
    requires
        forall|i: int| 0 <= i < s.len() ==> !is_space(#[trigger] s[i]),
    ensures
        crate::text::remove_spaces(s) == s,
    decreases s.len(),
{
    if s.len() > 0 {
        lemma_no_spaces(s.drop_last());
        assert(s.drop_last().push(s.last()) =~= s);
    }
}

proof fn lemma_replace_absent(s: Seq<char>, p: Seq<char>, q: Seq<char>, i: int)
    requires
        0 <= i <= s.len(),
        forall|j: int| !match_at(s, p, j),
    ensures
        replace_from(s, p, q, i) == s.subrange(i, s.len() as int),
    decreases s.len() - i,
{
    if i < s.len() {
        lemma_replace_absent(s, p, q, i + 1);
        assert(seq![s[i]] + s.subrange(i + 1, s.len() as int) =~= s.subrange(i, s.len() as int));
    } else {
        assert(s.subrange(i, s.len() as int) =~= Seq::<char>::empty());
    }
}

proof fn lemma_two_digits_value(a: nat, b: nat)
    requires
        a < 10,
        b < 10,
    ensures
        parse_u32(seq![digit_char(a), digit_char(b)]) == Some((a * 10 + b) as u32),
{
    let d = seq![digit_char(a), digit_char(b)];
    reveal_with_fuel(digits_value, 3);
    assert(d.drop_last() =~= seq![digit_char(a)]);
    assert(d.drop_last().drop_last() =~= Seq::<char>::empty());
    assert(crate::text::digit_value(digit_char(a)) == a);
    assert(crate::text::digit_value(digit_char(b)) == b);
    assert(digits_value(d) == a * 10 + b);
    assert(crate::text::all_digits(d));
}

/// A 24-hour time written `HH:MM` reads back as the same hour and minute.
pub proof fn lemma_clock_round_trip(h: u32, m: u32)
    requires
        h <= 23,
        m <= 59,
    ensures
        clock_of(clock_text(h as nat, m as nat)) == Some((h, m)),
{
    reveal_strlit(" ");
    reveal_strlit("");
    reveal_strlit(":");
    reveal_strlit("am");
    reveal_strlit("pm");
    reveal_strlit("midnight");
    reveal_strlit("noon");
    lemma_pad2_digits(h as nat);
    lemma_pad2_digits(m as nat);
    let hd = seq![digit_char(h as nat / 10), digit_char(h as nat % 10)];
    let md = seq![digit_char(m as nat / 10), digit_char(m as nat % 10)];
    let t = clock_text(h as nat, m as nat);
    assert(t =~= hd + seq![':'] + md);
    assert(t.len() == 5);
    assert(!is_space(t[0]) && !is_space(t[4]));
    assert(trim_start(t) == t);
    assert(trim(t) == t);
    assert(t != "midnight"@);
    assert(t != "noon"@);
    lemma_no_spaces(t);
    assert(t.skip(3).last() != 'm');
    assert(!crate::text::ends_with(t, "am"@)) by {
        if crate::text::ends_with(t, "am"@) {
            assert(t.skip(3)[1] == "am"@[1]);
        }
    }
    assert(!crate::text::ends_with(t, "pm"@)) by {
        if crate::text::ends_with(t, "pm"@) {
            assert(t.skip(3)[1] == "pm"@[1]);
        }
    }
    assert(meridian_split(t) == (t, 0int));
    assert(!match_at(t, ":"@, 0)) by {
        if match_at(t, ":"@, 0) {
            assert(t.subrange(0, 1)[0] == ':');
        }
    }
    assert(!match_at(t, ":"@, 1)) by {
        if match_at(t, ":"@, 1) {
            assert(t.subrange(1, 2)[0] == ':');
        }
    }
    assert(t.subrange(2, 3) =~= ":"@);
    assert(match_at(t, ":"@, 2));
    assert(find_from(t, ":"@, 2) == Some(2int));
    assert(find_from(t, ":"@, 1) == Some(2int));
    assert(find_from(t, ":"@, 0) == Some(2int));
    assert(t.take(2) =~= hd);
    assert(t.skip(3) =~= md);
    assert(split_once(t, ":"@) == Some((hd, md)));
    assert(find_from(md, ":"@, 0) is None) by {
        assert(!match_at(md, ":"@, 0)) by {
            if match_at(md, ":"@, 0) {
                assert(md.subrange(0, 1)[0] == ':');
            }
        }
        assert(!match_at(md, ":"@, 1)) by {
            if match_at(md, ":"@, 1) {
                assert(md.subrange(1, 2)[0] == ':');
            }
        }
        assert(find_from(md, ":"@, 2) is None);
        assert(find_from(md, ":"@, 1) is None);
    }
    lemma_two_digits_value(h as nat / 10, h as nat % 10);
    lemma_two_digits_value(m as nat / 10, m as nat % 10);
    assert(hour_minute_of(t, 0) == Some((h, m)));
}


/// No `,` and no `&` in the text.
pub open spec fn no_list_marks(t: Seq<char>) -> bool {
    forall|i: int| 0 <= i < t.len() ==> #[trigger] t[i] != ',' && t[i] != '&'
}

proof fn lemma_plain_day_tokens(t: Seq<char>)
    requires
        no_list_marks(t),
    ensures
        day_tokens(t) == crate::text::words(t),
{
    reveal_strlit(",");
    reveal_strlit("&");
    assert forall|j: int| !match_at(t, ","@, j) by {
        if match_at(t, ","@, j) {
            assert(t.subrange(j, j + 1)[0] == ',');
        }
    }
    lemma_replace_absent(t, ","@, " "@, 0);
    assert(replace(t, ","@, " "@) =~= t);
    assert forall|j: int| !match_at(t, "&"@, j) by {
        if match_at(t, "&"@, j) {
            assert(t.subrange(j, j + 1)[0] == '&');
        }
    }
    lemma_replace_absent(t, "&"@, " "@, 0);
    assert(replace(t, "&"@, " "@) =~= t);
}

/// Two weekday fragments (lower-case, without `,` or `&`) whose words are
/// the same up to order and repeats name the same days.
pub proof fn lemma_day_fragment_order_free(a: Seq<char>, b: Seq<char>)
    requires
        no_list_marks(a),
        no_list_marks(b),
        forall|w: Seq<char>|
            #[trigger] crate::text::words(a).contains(w) <==> crate::text::words(b).contains(w),
    ensures
        day_list_of(a) == day_list_of(b),
{
    lemma_plain_day_tokens(a);
    lemma_plain_day_tokens(b);
    assert forall|w: Seq<char>| #[trigger] day_tokens(a).contains(w) <==> day_tokens(b).contains(
        w,
    ) by {
        assert(crate::text::words(a).contains(w) <==> crate::text::words(b).contains(w));
    }
    lemma_day_list_order_free(a, b);
}

/// In a weekday fragment (lower-case, without `,` or `&`), adding a plural
/// `s` to one day name leaves the days named unchanged.
pub proof fn lemma_day_fragment_plural(a: Seq<char>, b: Seq<char>, i: int)
    requires
        no_list_marks(a),
        no_list_marks(b),
        0 <= i < crate::text::words(a).len(),
        day_code(crate::text::words(a)[i]) is Some,
        crate::text::words(b) == crate::text::words(a).update(
            i,
            crate::text::words(a)[i].push('s'),
        ),
    ensures
        day_list_of(a) == day_list_of(b),
{
    lemma_plain_day_tokens(a);
    lemma_plain_day_tokens(b);
    let ta = day_tokens(a);
    let tb = day_tokens(b);
    lemma_day_plural(ta[i]);
    assert(forall|j: int| 0 <= j < ta.len() ==> token_day(#[trigger] tb[j]) == token_day(ta[j]));
    assert forall|x: nat| #[trigger] day_set(ta).contains(x) <==> day_set(tb).contains(x) by {
        if day_set(ta).contains(x) {
            let j = choose|j: int| 0 <= j < ta.len() && token_day(#[trigger] ta[j]) == Some(x);
            assert(token_day(tb[j]) == Some(x));
        }
        if day_set(tb).contains(x) {
            let j = choose|j: int| 0 <= j < tb.len() && token_day(#[trigger] tb[j]) == Some(x);
            assert(token_day(ta[j]) == Some(x));
        }
    }
    assert(day_set(ta) =~= day_set(tb));
    if day_tokens_ok(ta) {
        assert forall|j: int| 0 <= j < tb.len() implies crate::days::is_filler(#[trigger] tb[j])
            || token_day(tb[j]) is Some by {
            assert(crate::days::is_filler(ta[j]) || token_day(ta[j]) is Some);
            if j != i {
                assert(tb[j] == ta[j]);
            }
        }
    }
    if day_tokens_ok(tb) {
        assert forall|j: int| 0 <= j < ta.len() implies crate::days::is_filler(#[trigger] ta[j])
            || token_day(ta[j]) is Some by {
            assert(crate::days::is_filler(tb[j]) || token_day(tb[j]) is Some);
            if j != i {
                assert(tb[j] == ta[j]);
            }
        }
    }
}

} // verus!
