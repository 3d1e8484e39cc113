use cronphrase::clock::{clock_time, format_clock, parse_time_fragment};
use cronphrase::days::{day_list_lowered, day_number, describe_days, parse_day_list, parse_dom_list};
use cronphrase::expression::{parse_expression, ParseError};
use cronphrase::recognize::{
    try_parse_daily, try_parse_every_hours, try_parse_every_minutes, try_parse_hourly,
    try_parse_monthly, try_parse_on_days, try_parse_raw, try_parse_specific_days,
    try_parse_weekdayish,
};
use cronphrase::entry::{parse_env_var, quote_command, render_entry, CronEntry, EnvVar};
use cronphrase::schedule::CronSpec;
use cronphrase::style::{capitalize, Painter};

fn fields(c: &CronSpec) -> String {
    c.as_string()
}

#[test]
fn clock_round_trips_every_valid_time() {
    for h in 0..24u32 {
        for m in 0..60u32 {
            let text = format!("{:02}:{:02}", h, m);
            assert_eq!(parse_time_fragment(&text), Some((h, m)));
        }
    }
}

#[test]
fn clock_named_and_meridian_times() {
    assert_eq!(parse_time_fragment("noon"), Some((12, 0)));
    assert_eq!(parse_time_fragment("midnight"), Some((0, 0)));
    assert_eq!(parse_time_fragment("5pm"), Some((17, 0)));
    assert_eq!(parse_time_fragment("12am"), Some((0, 0)));
    assert_eq!(parse_time_fragment("12pm"), Some((12, 0)));
    assert_eq!(parse_time_fragment("13pm"), None);
}

#[test]
fn clock_edge_cases() {
    assert_eq!(parse_time_fragment("  NOON "), Some((12, 0)));
    assert_eq!(parse_time_fragment("5 PM"), Some((17, 0)));
    assert_eq!(parse_time_fragment("11:45pm"), Some((23, 45)));
    assert_eq!(parse_time_fragment("24:00"), None);
    assert_eq!(parse_time_fragment("10:60"), None);
    assert_eq!(parse_time_fragment("1:2:3"), None);
    assert_eq!(parse_time_fragment(":10"), None);
    assert_eq!(parse_time_fragment("7"), Some((7, 0)));
    assert_eq!(parse_time_fragment("+7:05"), Some((7, 5)));
}

#[test]
fn clock_formats_with_padding() {
    assert_eq!(format_clock(7, 5), "07:05");
    assert_eq!(format_clock(23, 59), "23:59");
}

#[test]
fn weekday_list_ignores_order_and_plurals() {
    let a = parse_day_list("mon wednesday").unwrap();
    let b = parse_day_list("Mondays, Wednesdays").unwrap();
    assert_eq!(a.days, vec![1, 3]);
    assert_eq!(b.days, vec![1, 3]);
    assert_eq!(a.cron_value, "1,3");
    assert_eq!(b.cron_value, "1,3");
    let c = parse_day_list("wednesday & monday").unwrap();
    assert_eq!(c.cron_value, "1,3");
}

#[test]
fn weekday_list_rejects_unknown_and_empty() {
    assert!(parse_day_list("mon funday").is_none());
    assert!(parse_day_list("every week").is_none());
    assert!(parse_day_list("").is_none());
    let d = parse_day_list("every sat and sun").unwrap();
    assert_eq!(d.cron_value, "0,6");
}

#[test]
fn day_names_resolve() {
    assert_eq!(day_number("sun"), Some(0));
    assert_eq!(day_number("thurs"), Some(4));
    assert_eq!(day_number("saturday"), Some(6));
    assert_eq!(day_number("sundays"), None);
}

#[test]
fn days_are_described() {
    assert_eq!(describe_days(&[1]), "Mondays");
    assert_eq!(describe_days(&[0, 5]), "Sundays, Fridays");
}

#[test]
fn dom_list_dedups_and_sorts() {
    let d = parse_dom_list("15th and 1st, 1").unwrap();
    assert_eq!(d.cron_value, "1,15");
    assert_eq!(d.human_value, "1, 15");
}

#[test]
fn dom_list_drops_out_of_range_and_fails_empty() {
    let d = parse_dom_list("0, 31st, 32").unwrap();
    assert_eq!(d.cron_value, "31");
    assert!(parse_dom_list("first").is_none());
    assert!(parse_dom_list("99").is_none());
}

#[test]
fn dom_list_strips_suffix_letters_anywhere() {
    // "1st" loses "st"; "x2nd3" keeps the digits 2 and 3 as 23.
    let d = parse_dom_list("1st x2nd3").unwrap();
    assert_eq!(d.cron_value, "1,23");
}

#[test]
fn raw_cron_wins_first() {
    let c = parse_expression("30 3 * * 1").unwrap();
    assert_eq!(fields(&c), "30 3 * * 1");
    assert_eq!(c.explanation, "Raw cron expression");
    assert!(try_parse_raw("30 3 * *").is_none());
    assert!(try_parse_raw("30 3 * * $").is_none());
}

#[test]
fn every_fifteen_minutes() {
    let c = parse_expression("every 15 minutes").unwrap();
    assert_eq!(fields(&c), "*/15 * * * *");
    assert!(c.explanation.contains("Every 15 minute(s)"));
}

#[test]
fn every_minute_and_zero_minutes() {
    let c = try_parse_every_minutes("every minute").unwrap();
    assert_eq!(fields(&c), "* * * * *");
    assert_eq!(c.explanation, "Every 1 minute(s)");
    let c = try_parse_every_minutes("every 0 mins").unwrap();
    assert_eq!(fields(&c), "* * * * *");
}

#[test]
fn hourly_phrases() {
    let c = try_parse_hourly("hourly").unwrap();
    assert_eq!(fields(&c), "0 * * * *");
    assert_eq!(c.explanation, "Every hour on the hour");
    let c = try_parse_hourly("every hour at :5").unwrap();
    assert_eq!(fields(&c), "5 * * * *");
    assert_eq!(c.explanation, "Every hour at :05");
    let c = try_parse_hourly("hourly at :75").unwrap();
    assert_eq!(fields(&c), "59 * * * *");
}

#[test]
fn every_n_hours() {
    let c = try_parse_every_hours("every 2 hours").unwrap();
    assert_eq!(fields(&c), "0 */2 * * *");
    assert_eq!(c.explanation, "Every 2 hour(s)");
    let c = try_parse_every_hours("every 3 hours at :30").unwrap();
    assert_eq!(fields(&c), "30 */3 * * *");
    assert_eq!(c.explanation, "Every 3 hour(s) at :30");
    assert!(try_parse_every_hours("every hours").is_none());
}

#[test]
fn daily_phrases() {
    let c = try_parse_daily("daily at 05:30").unwrap();
    assert_eq!(fields(&c), "30 5 * * *");
    assert_eq!(c.explanation, "Daily at 05:30");
    let c = try_parse_daily("every day at noon").unwrap();
    assert_eq!(fields(&c), "0 12 * * *");
    assert!(try_parse_daily("daily").is_none());
}

#[test]
fn weekdays_at_seven_fifteen() {
    let c = parse_expression("weekdays at 07:15").unwrap();
    assert_eq!(fields(&c), "15 7 * * 1-5");
    assert_eq!(c.explanation, "Weekdays at 07:15");
}

#[test]
fn weekends_at_nineteen_five() {
    let c = parse_expression("weekends at 19:05").unwrap();
    assert_eq!(fields(&c), "5 19 * * 6,0");
    assert_eq!(c.explanation, "Weekends at 19:05");
    let c = try_parse_weekdayish("every weekend 7pm").unwrap();
    assert_eq!(fields(&c), "0 19 * * 6,0");
}

#[test]
fn specific_days_phrase() {
    let c = try_parse_specific_days("monday wednesday at 03:00").unwrap();
    assert_eq!(fields(&c), "0 3 * * 1,3");
    assert_eq!(c.explanation, "Mondays, Wednesdays at 03:00");
    let c = parse_expression("weekly on fri at 02:45").unwrap();
    assert_eq!(fields(&c), "45 2 * * 5");
    assert_eq!(c.explanation, "Fridays at 02:45");
}

#[test]
fn monthly_on_first_and_fifteenth() {
    let c = parse_expression("monthly on 1st and 15th at 04:00").unwrap();
    assert_eq!(fields(&c), "0 4 1,15 * *");
    assert_eq!(c.explanation, "Monthly on 1, 15 at 04:00");
}

#[test]
fn monthly_default_day() {
    let c = try_parse_monthly("monthly at 6am").unwrap();
    assert_eq!(fields(&c), "0 6 1 * *");
    assert_eq!(c.explanation, "Monthly on day 1 at 06:00 (default day)");
    assert!(try_parse_monthly("monthly").is_none());
}

#[test]
fn on_dates_phrase() {
    let c = try_parse_on_days("on 10,20 at 22:30").unwrap();
    assert_eq!(fields(&c), "30 22 10,20 * *");
    assert_eq!(c.explanation, "On 10, 20 at 22:30");
}

#[test]
fn blank_and_unknown_inputs_fail() {
    assert_eq!(parse_expression("").err(), Some(ParseError::EmptyExpression));
    assert_eq!(parse_expression("   \t ").err(), Some(ParseError::EmptyExpression));
    assert_eq!(parse_expression("sometime soon").err(), Some(ParseError::UnsupportedPhrasing));
    assert_eq!(ParseError::EmptyExpression.message(), "The expression is empty");
}

#[test]
fn normalization_collapses_case_and_dashes() {
    let c = parse_expression("  Every   15\tMINUTES ").unwrap();
    assert_eq!(fields(&c), "*/15 * * * *");
    let c = parse_expression("WEEKDAYS AT 7PM").unwrap();
    assert_eq!(fields(&c), "0 19 * * 1-5");
}

#[test]
fn parsed_fields_stay_in_bounds() {
    for text in [
        "every 15 minutes",
        "hourly at :59",
        "every 4 hours at :10",
        "daily at 11:59pm",
        "weekends at midnight",
        "sat sun at 12am",
        "monthly on 31st at 23:00",
        "on 1, 2 and 3 at 1",
    ] {
        let c = parse_expression(text).unwrap();
        assert_eq!(c.month, "*");
        for f in [&c.minute, &c.hour, &c.day_of_month, &c.day_of_week] {
            assert!(!f.is_empty());
        }
        if let Ok(m) = c.minute.parse::<u32>() {
            assert!(m <= 59);
        }
        if let Ok(h) = c.hour.parse::<u32>() {
            assert!(h <= 23);
        }
        for d in c.day_of_month.split(',') {
            if let Ok(v) = d.parse::<u32>() {
                assert!((1..=31).contains(&v));
            }
        }
    }
}

#[test]
fn env_var_parsing() {
    let e = parse_env_var(" PATH = /usr/bin ").ok().unwrap();
    assert_eq!(e.key, "PATH");
    assert_eq!(e.value, "/usr/bin");
    let e = parse_env_var("A=b=c").ok().unwrap();
    assert_eq!(e.value, "b=c");
    assert_eq!(parse_env_var("novalue").err().unwrap(), "Expected key=value");
    assert_eq!(parse_env_var("  =x").err().unwrap(), "Environment key cannot be empty");
}

#[test]
fn command_words_are_quoted() {
    let parts = vec!["echo".to_string(), "hello world".to_string()];
    assert_eq!(quote_command(&parts).ok().unwrap(), "echo 'hello world'");
    let bad = vec!["ok".to_string(), "a\0b".to_string()];
    assert_eq!(quote_command(&bad).err(), Some(1));
}

#[test]
fn entry_renders_comment_env_and_line() {
    let schedule = parse_expression("daily at 05:30").unwrap();
    let entry = CronEntry {
        schedule,
        command: "backup.sh".to_string(),
        comment: Some("nightly".to_string()),
        env: vec![EnvVar { key: "A".to_string(), value: "1".to_string() }],
    };
    assert_eq!(render_entry(&entry), "# nightly\nA=1\n30 5 * * * backup.sh");
}

#[test]
fn painter_colours_only_when_enabled() {
    let on = Painter::new(true);
    let off = Painter::new(false);
    assert_eq!(on.accent("hi"), "\u{1b}[96mhi\u{1b}[39m");
    assert_eq!(on.success("ok"), "\u{1b}[92mok\u{1b}[39m");
    assert_eq!(on.warn("no"), "\u{1b}[93mno\u{1b}[39m");
    assert_eq!(off.accent("hi"), "hi");
}

#[test]
fn capitalize_first_letter() {
    assert_eq!(capitalize("weekdays"), "Weekdays");
    assert_eq!(capitalize(""), "");
    assert_eq!(capitalize("ßa"), "SSa");
}

#[test]
fn step_counts_that_overflow_or_are_zero() {
    let c = parse_expression("every 99999999999 minutes").unwrap();
    assert_eq!(fields(&c), "* * * * *");
    assert_eq!(c.explanation, "Every 1 minute(s)");
    let c = parse_expression("every 0 hours").unwrap();
    assert_eq!(fields(&c), "0 * * * *");
    assert_eq!(c.explanation, "Every 1 hour(s)");
}

#[test]
fn dashes_and_failed_sub_parses_fall_through() {
    assert_eq!(
        parse_expression("every day at 25:00").err(),
        Some(ParseError::UnsupportedPhrasing)
    );
    assert_eq!(
        parse_expression("monday funday at 10:00").err(),
        Some(ParseError::UnsupportedPhrasing)
    );
    // The en dash becomes "-", and the token's digits read as 56.
    assert_eq!(
        parse_expression("on 5\u{2013}6 at 9").err(),
        Some(ParseError::UnsupportedPhrasing)
    );
    let c = parse_expression("on 5\u{2013} at 9").unwrap();
    assert_eq!(fields(&c), "0 9 5 * *");
}

#[test]
fn clock_strips_all_inner_whitespace() {
    assert_eq!(clock_time("10"), Some((10, 0)));
    assert_eq!(clock_time("1\t0"), Some((10, 0)));
    assert_eq!(parse_time_fragment(" 5 PM "), Some((17, 0)));
    assert_eq!(parse_time_fragment("5\u{a0}pm"), Some((17, 0)));
    assert_eq!(parse_time_fragment("NOON"), Some((12, 0)));
}

#[test]
fn weekday_list_and_is_a_separator_anywhere() {
    assert_eq!(day_list_lowered("and mon").unwrap().days, vec![1]);
    assert_eq!(day_list_lowered("mon and").unwrap().days, vec![1]);
    assert_eq!(day_list_lowered("mon and and wed").unwrap().cron_value, "1,3");
    assert!(day_list_lowered("and").is_none());
}

#[test]
fn recognizers_lower_case_their_fragments() {
    let c = try_parse_monthly("monthly at 5PM").unwrap();
    assert_eq!(fields(&c), "0 17 1 * *");
    let c = try_parse_specific_days("MON at 5pm").unwrap();
    assert_eq!(fields(&c), "0 17 * * 1");
    let c = try_parse_daily("daily at NOON").unwrap();
    assert_eq!(fields(&c), "0 12 * * *");
}
