//! Lists of weekdays and of days of the month, read from a phrase fragment
//! into ascending, duplicate-free day numbers.
use vstd::prelude::*;
use crate::text::{
    chars_of, dec, eq_lit, filter_digit_chars, filter_digits, join, join_with, lower_of, lowercase,
    parse_u32, parse_u32_chars, push_decimal, replace, replace_lit, split_words, text_of, views,
    words,
};

verus! {

/// The members of `s` below `n`, in ascending order.
pub open spec fn members_below(s: Set<nat>, n: nat) -> Seq<nat>
    decreases n,
{
    if n == 0 {
        Seq::empty()
    } else {
        let r = members_below(s, (n - 1) as nat);
        if s.contains((n - 1) as nat) {
            r.push((n - 1) as nat)
        } else {
            r
        }
    }
}

/// Each number in decimal.
pub open spec fn num_texts(ds: Seq<nat>) -> Seq<Seq<char>> {
    ds.map_values(|d: nat| dec(d))
}

pub open spec fn nats_of(v: Seq<u32>) -> Seq<nat> {
    v.map_values(|d: u32| d as nat)
}

/// The weekday code (0 = Sunday) of a lower-case day name or abbreviation.
pub open spec fn day_code(t: Seq<char>) -> Option<u8> {
    if t == "sun"@ || t == "sunday"@ {
        Some(0)
    } else if t == "mon"@ || t == "monday"@ {
        Some(1)
    } else if t == "tue"@ || t == "tues"@ || t == "tuesday"@ {
        Some(2)
    } else if t == "wed"@ || t == "weds"@ || t == "wednesday"@ {
        Some(3)
    } else if t == "thu"@ || t == "thur"@ || t == "thurs"@ || t == "thursday"@ {
        Some(4)
    } else if t == "fri"@ || t == "friday"@ {
        Some(5)
    } else if t == "sat"@ || t == "saturday"@ {
        Some(6)
    } else {
        None
    }
}

pub open spec fn is_stop_word(t: Seq<char>) -> bool {
    t == "every"@ || t == "each"@ || t == "on"@ || t == "week"@ || t == "weeks"@ || t
        == "weekly"@ || t == "the"@
}

/// A token that names no day and is dropped: the separator word `and`, or a stop word.
pub open spec fn is_filler(t: Seq<char>) -> bool {
    t == "and"@ || is_stop_word(t)
}

/// A token without one trailing plural `s`.
pub open spec fn strip_plural(t: Seq<char>) -> Seq<char> {
    if t.len() > 0 && t.last() == 's' {
        t.drop_last()
    } else {
        t
    }
}

/// A weekday token's code; `None` for a filler or an unknown word.
pub open spec fn token_day(t: Seq<char>) -> Option<nat> {
    if is_filler(t) {
        None
    } else {
        match day_code(strip_plural(t)) {
            Some(c) => Some(c as nat),
            None => None,
        }
    }
}

/// The tokens of a weekday fragment: split at whitespace, `,` and `&`
/// (the word `and` separates too: it is a filler token).
pub open spec fn day_tokens(t: Seq<char>) -> Seq<Seq<char>> {
    words(replace(replace(t, ","@, " "@), "&"@, " "@))
}

/// Every token is a filler or names a day.
pub open spec fn day_tokens_ok(ts: Seq<Seq<char>>) -> bool {
    forall|i: int| 0 <= i < ts.len() ==> is_filler(#[trigger] ts[i]) || token_day(ts[i]) is Some
}

pub open spec fn day_set(ts: Seq<Seq<char>>) -> Set<nat> {
    Set::new(|d: nat| exists|i: int| 0 <= i < ts.len() && token_day(#[trigger] ts[i]) == Some(d))
}

/// The weekday codes that a lower-case fragment names, ascending.
pub open spec fn day_list_of(t: Seq<char>) -> Option<Seq<nat>> {
    let ts = day_tokens(t);
    let ds = members_below(day_set(ts), 7);
    if day_tokens_ok(ts) && ds.len() > 0 {
        Some(ds)
    } else {
        None
    }
}

/// The tokens of a day-of-month fragment: `,` and ` and ` made separators,
/// and every `th`, `rd`, `nd`, `st` removed wherever it stands.
pub open spec fn dom_tokens(t: Seq<char>) -> Seq<Seq<char>> {
    words(
        replace(
            replace(
                replace(replace(replace(replace(t, ","@, " "@), " and "@, " "@), "th"@, ""@), "rd"@, ""@),
                "nd"@,
                ""@,
            ),
            "st"@,
            ""@,
        ),
    )
}

/// The day of the month that a token's digits give, if in 1 to 31.
pub open spec fn token_dom(t: Seq<char>) -> Option<nat> {
    let d = filter_digits(t);
    if d.len() == 0 {
        None
    } else {
        match parse_u32(d) {
            Some(v) => if 1 <= v && v <= 31 {
                Some(v as nat)
            } else {
                None
            },
            None => None,
        }
    }
}

pub open spec fn dom_set(ts: Seq<Seq<char>>) -> Set<nat> {
    Set::new(|v: nat| exists|i: int| 0 <= i < ts.len() && token_dom(#[trigger] ts[i]) == Some(v))
}

/// The days of the month that a fragment names, ascending.
pub open spec fn dom_list_of(t: Seq<char>) -> Option<Seq<nat>> {
    let ds = members_below(dom_set(dom_tokens(t)), 32);
    if ds.len() > 0 {
        Some(ds)
    } else {
        None
    }
}

/// The plural English name of a weekday code.
pub open spec fn day_label(d: nat) -> Seq<char> {
    if d == 0 {
        "Sundays"@
    } else if d == 1 {
        "Mondays"@
    } else if d == 2 {
        "Tuesdays"@
    } else if d == 3 {
        "Wednesdays"@
    } else if d == 4 {
        "Thursdays"@
    } else if d == 5 {
        "Fridays"@
    } else {
        "Saturdays"@
    }
}

pub open spec fn days_text(ds: Seq<nat>) -> Seq<char> {
    join(ds.map_values(|d: nat| day_label(d)), ", "@)
}

/// A weekday list: the codes, ascending, and their cron field.
pub struct DayList {
    pub cron_value: String,
    pub days: Vec<u8>,
}

/// A day-of-month list: its cron field and its text for explanations.
pub struct DomList {
    pub cron_value: String,
    pub human_value: String,
}

pub fn day_number(token: &str) -> (r: Option<u8>)
    ensures
        r == day_code(token@),
{
    let t = chars_of(token);
    day_code_chars(&t)
}

fn day_code_chars(t: &Vec<char>) -> (r: Option<u8>)
    ensures
        r == day_code(t@),
{
    if eq_lit(t, "sun") || eq_lit(t, "sunday") {
        Some(0)
    } else if eq_lit(t, "mon") || eq_lit(t, "monday") {
        Some(1)
    } else if eq_lit(t, "tue") || eq_lit(t, "tues") || eq_lit(t, "tuesday") {
        Some(2)
    } else if eq_lit(t, "wed") || eq_lit(t, "weds") || eq_lit(t, "wednesday") {
        Some(3)
    } else if eq_lit(t, "thu") || eq_lit(t, "thur") || eq_lit(t, "thurs") || eq_lit(
        t,
        "thursday",
    ) {
        Some(4)
    } else if eq_lit(t, "fri") || eq_lit(t, "friday") {
        Some(5)
    } else if eq_lit(t, "sat") || eq_lit(t, "saturday") {
        Some(6)
    } else {
        None
    }
}

fn token_day_chars(t: &Vec<char>) -> (r: Option<u8>)
    ensures
        r matches Some(c) ==> c < 7 && token_day(t@) == Some(c as nat),
        r is None ==> token_day(t@) is None,
{
    if eq_lit(t, "and") || eq_lit(t, "every") || eq_lit(t, "each") || eq_lit(t, "on") || eq_lit(t, "week") || eq_lit(
        t,
        "weeks",
    ) || eq_lit(t, "weekly") || eq_lit(t, "the") {
        return None;
    }
    let n = t.len();
    if n > 0 && t[n - 1] == 's' {
        let c = slice_of_all_but_last(t);
        day_code_chars(&c)
    } else {
        day_code_chars(t)
    }
}

fn slice_of_all_but_last(t: &Vec<char>) -> (r: Vec<char>)
    requires
        t@.len() > 0,
    ensures
        r@ == t@.drop_last(),
{
    let r = crate::text::slice_of(t, 0, t.len() - 1);
    assert(r@ =~= t@.drop_last());
    r
}

/// The members of `0..present.len()` marked present, ascending.
fn members_of(present: &Vec<bool>, Ghost(s): Ghost<Set<nat>>) -> (r: Vec<u32>)
    requires
        present@.len() <= u32::MAX,
        forall|d: nat| d < present@.len() ==> (s.contains(d) <==> present@[d as int]),
    ensures
        nats_of(r@) == members_below(s, present@.len() as nat),
        forall|i: int| 0 <= i < r@.len() ==> r@[i] < present@.len(),
{
    let mut r: Vec<u32> = Vec::new();
    let mut d: usize = 0;
    while d < present.len()
        invariant
            d <= present@.len() <= u32::MAX,
            forall|d: nat| d < present@.len() ==> (s.contains(d) <==> present@[d as int]),
            nats_of(r@) == members_below(s, d as nat),
            forall|i: int| 0 <= i < r@.len() ==> r@[i] < d,
        decreases present@.len() - d,
    {
        let ghost prev = r@;
        if present[d] {
            r.push(d as u32);
            assert(nats_of(r@) =~= nats_of(prev).push(d as nat));
        }
        d = d + 1;
    }
    r
}

/// Each number in decimal.
pub(crate) fn decimal_texts(ds: &Vec<u32>) -> (r: Vec<Vec<char>>)
    ensures
        views(r@) == num_texts(nats_of(ds@)),
{
    let mut r: Vec<Vec<char>> = Vec::new();
    let mut k: usize = 0;
    while k < ds.len()
        invariant
            k <= ds@.len(),
            views(r@) == num_texts(nats_of(ds@.take(k as int))),
        decreases ds@.len() - k,
    {
        let mut t: Vec<char> = Vec::new();
        push_decimal(&mut t, ds[k]);
        assert(t@ =~= dec(ds@[k as int] as nat));
        let ghost prev = r@;
        r.push(t);
        assert(views(r@) =~= views(prev).push(t@));
        assert(ds@.take(k + 1) =~= ds@.take(k as int).push(ds@[k as int]));
        assert(nats_of(ds@.take(k + 1)) =~= nats_of(ds@.take(k as int)).push(ds@[k as int] as nat));
        k = k + 1;
        assert(views(r@) =~= num_texts(nats_of(ds@.take(k as int))));
    }
    assert(ds@.take(k as int) =~= ds@);
    r
}

/// The weekday codes of a lower-case fragment, ascending.
pub fn day_list_chars(t: &Vec<char>) -> (r: Option<Vec<u8>>)
    ensures
        r matches Some(v) ==> day_list_of(t@) == Some(v@.map_values(|d: u8| d as nat)),
        r is None ==> day_list_of(t@) is None,
{
    proof {
        reveal_strlit(",");
        reveal_strlit("&");
    }
    let a = replace_lit(t, ",", " ");
    let b = replace_lit(&a, "&", " ");
    let ts = split_words(&b);
    let ghost tv = views(ts@);
    assert(tv == day_tokens(t@));
    let mut present: Vec<bool> = Vec::new();
    let mut d: usize = 0;
    while d < 7
        invariant
            d <= 7,
            present@.len() == d,
            forall|i: int| 0 <= i < d ==> !present@[i],
        decreases 7 - d,
    {
        present.push(false);
        d = d + 1;
    }
    let mut k: usize = 0;
    while k < ts.len()
        invariant
            k <= ts@.len(),
            tv == views(ts@),
            tv == day_tokens(t@),
            present@.len() == 7,
            forall|i: int| 0 <= i < k ==> is_filler(#[trigger] tv[i]) || token_day(tv[i]) is Some,
            forall|e: nat|
                e < 7 ==> (present@[e as int] <==> exists|i: int|
                    0 <= i < k && token_day(#[trigger] tv[i]) == Some(e)),
            forall|i: int| 0 <= i < k ==> (token_day(#[trigger] tv[i]) matches Some(e) ==> e < 7),
        decreases ts@.len() - k,
    {
        let tok = &ts[k];
        assert(tok@ == tv[k as int]);
        let is_stop = eq_lit(tok, "and") || eq_lit(tok, "every") || eq_lit(tok, "each") || eq_lit(tok, "on") || eq_lit(
            tok,
            "weeks",
        ) || eq_lit(tok, "week") || eq_lit(tok, "weekly") || eq_lit(tok, "the");
        match token_day_chars(tok) {
            Some(c) => {
                present.set(c as usize, true);
            },
            None => {
                if !is_stop {
                    assert(!day_tokens_ok(tv));
                    return None;
                }
            },
        }
        k = k + 1;
        assert forall|e: nat|
            e < 7 implies (present@[e as int] <==> exists|i: int|
                0 <= i < k && token_day(#[trigger] tv[i]) == Some(e)) by {
            if token_day(tv[k - 1]) == Some(e) {
                assert(present@[e as int]);
            }
        }
    }
    let ghost s = day_set(tv);
    let m = members_of(&present, Ghost(s));
    if m.len() == 0 {
        return None;
    }
    let mut out: Vec<u8> = Vec::new();
    let mut j: usize = 0;
    while j < m.len()
        invariant
            j <= m@.len(),
            forall|i: int| 0 <= i < m@.len() ==> m@[i] < 7,
            out@.map_values(|d: u8| d as nat) == nats_of(m@.take(j as int)),
        decreases m@.len() - j,
    {
        let ghost prev = out@;
        out.push(m[j] as u8);
        assert(out@.map_values(|d: u8| d as nat) =~= prev.map_values(|d: u8| d as nat).push(
            m@[j as int] as nat,
        ));
        assert(m@.take(j + 1) =~= m@.take(j as int).push(m@[j as int]));
        assert(nats_of(m@.take(j + 1)) =~= nats_of(m@.take(j as int)).push(m@[j as int] as nat));
        j = j + 1;
    }
    assert(m@.take(j as int) =~= m@);
    Some(out)
}

pub open spec fn day_list_view(r: Option<DayList>) -> Option<(Seq<char>, Seq<nat>)> {
    match r {
        Some(l) => Some((l.cron_value@, l.days@.map_values(|d: u8| d as nat))),
        None => None,
    }
}

pub open spec fn day_list_spec(t: Seq<char>) -> Option<(Seq<char>, Seq<nat>)> {
    match day_list_of(t) {
        Some(ds) => Some((join(num_texts(ds), ","@), ds)),
        None => None,
    }
}

/// Reads a weekday list from a lower-case fragment.
pub fn day_list_lowered(text: &str) -> (r: Option<DayList>)
    ensures
        day_list_view(r) == day_list_spec(text@),
{
    let t = chars_of(text);
    match day_list_chars(&t) {
        Some(days) => {
            let mut wide: Vec<u32> = Vec::new();
            let mut j: usize = 0;
            while j < days.len()
                invariant
                    j <= days@.len(),
                    nats_of(wide@) == days@.take(j as int).map_values(|d: u8| d as nat),
                decreases days@.len() - j,
            {
                let ghost prev = wide@;
                wide.push(days[j] as u32);
                assert(nats_of(wide@) =~= nats_of(prev).push(days@[j as int] as nat));
                assert(days@.take(j + 1) =~= days@.take(j as int).push(days@[j as int]));
                assert(days@.take(j + 1).map_values(|d: u8| d as nat) =~= days@.take(
                    j as int,
                ).map_values(|d: u8| d as nat).push(days@[j as int] as nat));
                j = j + 1;
            }
            assert(days@.take(j as int) =~= days@);
            let texts = decimal_texts(&wide);
            let cron = join_with(&texts, ",");
            Some(DayList { cron_value: text_of(&cron), days })
        },
        None => None,
    }
}

/// Reads a weekday list: lower-cases the fragment, splits it at whitespace,
/// `,`, `&` and the word `and`, drops stop words and a plural `s`, and resolves
/// each name; one unknown word fails the whole list.
pub fn parse_day_list(prefix: &str) -> (r: Option<DayList>)
    ensures
        day_list_view(r) == day_list_spec(lower_of(prefix@)),
{
    let lowered = lowercase(prefix);
    day_list_lowered(lowered.as_str())
}


fn token_dom_chars(t: &Vec<char>) -> (r: Option<u32>)
    ensures
        r matches Some(v) ==> 1 <= v <= 31 && token_dom(t@) == Some(v as nat),
        r is None ==> token_dom(t@) is None,
{
    let d = filter_digit_chars(t);
    if d.len() == 0 {
        return None;
    }
    match parse_u32_chars(&d) {
        Some(v) => if 1 <= v && v <= 31 {
            Some(v)
        } else {
            None
        },
        None => None,
    }
}

pub open spec fn dom_list_view(r: Option<DomList>) -> Option<(Seq<char>, Seq<char>)> {
    match r {
        Some(l) => Some((l.cron_value@, l.human_value@)),
        None => None,
    }
}

/// A day-of-month list's cron field and its text for explanations.
pub open spec fn dom_list_spec(t: Seq<char>) -> Option<(Seq<char>, Seq<char>)> {
    match dom_list_of(t) {
        Some(ds) => Some((join(num_texts(ds), ","@), join(num_texts(ds), ", "@))),
        None => None,
    }
}

/// The days of the month that a fragment names, ascending.
pub fn dom_values(t: &Vec<char>) -> (r: Option<Vec<u32>>)
    ensures
        r matches Some(v) ==> dom_list_of(t@) == Some(nats_of(v@)),
        r is None ==> dom_list_of(t@) is None,
{
    proof {
        reveal_strlit(",");
        reveal_strlit(" and ");
        reveal_strlit("th");
        reveal_strlit("rd");
        reveal_strlit("nd");
        reveal_strlit("st");
    }
    let a = replace_lit(t, ",", " ");
    let b = replace_lit(&a, " and ", " ");
    let c = replace_lit(&b, "th", "");
    let d = replace_lit(&c, "rd", "");
    let e = replace_lit(&d, "nd", "");
    let f = replace_lit(&e, "st", "");
    let ts = split_words(&f);
    let ghost tv = views(ts@);
    assert(tv == dom_tokens(t@));
    let mut present: Vec<bool> = Vec::new();
    let mut j: usize = 0;
    while j < 32
        invariant
            j <= 32,
            present@.len() == j,
            forall|i: int| 0 <= i < j ==> !present@[i],
        decreases 32 - j,
    {
        present.push(false);
        j = j + 1;
    }
    let mut k: usize = 0;
    while k < ts.len()
        invariant
            k <= ts@.len(),
            tv == views(ts@),
            present@.len() == 32,
            forall|v: nat|
                v < 32 ==> (present@[v as int] <==> exists|i: int|
                    0 <= i < k && token_dom(#[trigger] tv[i]) == Some(v)),
            forall|i: int| 0 <= i < k ==> (token_dom(#[trigger] tv[i]) matches Some(v) ==> v < 32),
        decreases ts@.len() - k,
    {
        let tok = &ts[k];
        assert(tok@ == tv[k as int]);
        match token_dom_chars(tok) {
            Some(v) => {
                present.set(v as usize, true);
            },
            None => {},
        }
        k = k + 1;
        assert forall|v: nat|
            v < 32 implies (present@[v as int] <==> exists|i: int|
                0 <= i < k && token_dom(#[trigger] tv[i]) == Some(v)) by {
            if token_dom(tv[k - 1]) == Some(v) {
                assert(present@[v as int]);
            }
        }
    }
    let ghost s = dom_set(tv);
    let m = members_of(&present, Ghost(s));
    if m.len() == 0 {
        None
    } else {
        Some(m)
    }
}

/// Reads a day-of-month list: `,` and ` and ` separate, ordinal suffixes go,
/// each token keeps its digits; values outside 1 to 31 are dropped.
pub fn parse_dom_list(raw: &str) -> (r: Option<DomList>)
    ensures
        dom_list_view(r) == dom_list_spec(raw@),
{
    let t = chars_of(raw);
    match dom_values(&t) {
        Some(vs) => {
            let texts = decimal_texts(&vs);
            let cron = join_with(&texts, ",");
            let human = join_with(&texts, ", ");
            Some(DomList { cron_value: text_of(&cron), human_value: text_of(&human) })
        },
        None => None,
    }
}

fn day_label_text(d: u8) -> (r: &'static str)
    ensures
        r@ == day_label(d as nat),
{
    if d == 0 {
        "Sundays"
    } else if d == 1 {
        "Mondays"
    } else if d == 2 {
        "Tuesdays"
    } else if d == 3 {
        "Wednesdays"
    } else if d == 4 {
        "Thursdays"
    } else if d == 5 {
        "Fridays"
    } else {
        "Saturdays"
    }
}

pub fn push_days(v: &mut Vec<char>, days: &[u8])
    ensures
        final(v)@ == old(v)@ + days_text(days@.map_values(|d: u8| d as nat)),
{
    let mut labels: Vec<Vec<char>> = Vec::new();
    let mut k: usize = 0;
    while k < days.len()
        invariant
            k <= days@.len(),
            views(labels@) == days@.take(k as int).map_values(|d: u8| d as nat).map_values(
                |d: nat| day_label(d),
            ),
        decreases days@.len() - k,
    {
        let mut l: Vec<char> = Vec::new();
        crate::text::push_lit(&mut l, day_label_text(days[k]));
        let ghost prev = labels@;
        labels.push(l);
        assert(views(labels@) =~= views(prev).push(l@));
        assert(days@.take(k + 1) =~= days@.take(k as int).push(days@[k as int]));
        k = k + 1;
        assert(views(labels@) =~= days@.take(k as int).map_values(|d: u8| d as nat).map_values(
            |d: nat| day_label(d),
        ));
    }
    assert(days@.take(k as int) =~= days@);
    let joined = join_with(&labels, ", ");
    crate::text::push_all(v, &joined);
}

/// The plural day names of a weekday list, joined with `, `.
pub fn describe_days(days: &[u8]) -> (r: String)
    ensures
        r@ == days_text(days@.map_values(|d: u8| d as nat)),
{
    let mut v: Vec<char> = Vec::new();
    push_days(&mut v, days);
    assert(v@ =~= days_text(days@.map_values(|d: u8| d as nat)));
    text_of(&v)
}

} // verus!
