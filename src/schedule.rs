//! The schedule record: five cron fields and a sentence that explains them.
use vstd::prelude::*;
use crate::text::{push_all, text_of};

verus! {

/// A parsed schedule.
pub struct CronSpec {
    pub minute: String,
    pub hour: String,
    pub day_of_month: String,
    pub month: String,
    pub day_of_week: String,
    pub explanation: String,
}

/// The contents of a schedule record.
pub struct CronView {
    pub minute: Seq<char>,
    pub hour: Seq<char>,
    pub day_of_month: Seq<char>,
    pub month: Seq<char>,
    pub day_of_week: Seq<char>,
    pub explanation: Seq<char>,
}

impl View for CronSpec {
    type V = CronView;

    open spec fn view(&self) -> CronView {
        CronView {
            minute: self.minute@,
            hour: self.hour@,
            day_of_month: self.day_of_month@,
            month: self.month@,
            day_of_week: self.day_of_week@,
            explanation: self.explanation@,
        }
    }
}

pub open spec fn cron_view(
    minute: Seq<char>,
    hour: Seq<char>,
    day_of_month: Seq<char>,
    month: Seq<char>,
    day_of_week: Seq<char>,
    explanation: Seq<char>,
) -> CronView {
    CronView { minute, hour, day_of_month, month, day_of_week, explanation }
}

/// The five fields joined by single spaces, in cron order.
pub open spec fn cron_line(c: CronView) -> Seq<char> {
    c.minute + " "@ + c.hour + " "@ + c.day_of_month + " "@ + c.month + " "@ + c.day_of_week
}

pub open spec fn opt_view(r: Option<CronSpec>) -> Option<CronView> {
    match r {
        Some(c) => Some(c@),
        None => None,
    }
}

impl CronSpec {
    pub fn new(
        minute: String,
        hour: String,
        day_of_month: String,
        month: String,
        day_of_week: String,
        explanation: String,
    ) -> (r: Self)
        ensures
            r@ == cron_view(minute@, hour@, day_of_month@, month@, day_of_week@, explanation@),
    {
        CronSpec { minute, hour, day_of_month, month, day_of_week, explanation }
    }

    /// The cron schedule line: `minute hour day-of-month month day-of-week`.
    pub fn as_string(&self) -> (r: String)
        ensures
            r@ == cron_line(self@),
    {
        let mut v: Vec<char> = Vec::new();
        push_all(&mut v, &crate::text::chars_of(self.minute.as_str()));
        v.push(' ');
        push_all(&mut v, &crate::text::chars_of(self.hour.as_str()));
        v.push(' ');
        push_all(&mut v, &crate::text::chars_of(self.day_of_month.as_str()));
        v.push(' ');
        push_all(&mut v, &crate::text::chars_of(self.month.as_str()));
        v.push(' ');
        push_all(&mut v, &crate::text::chars_of(self.day_of_week.as_str()));
        proof {
            reveal_strlit(" ");
        }
        assert(v@ =~= cron_line(self@));
        text_of(&v)
    }
}

/// A schedule record built from the texts of its fields.
pub fn spec_from_chars(
    minute: &Vec<char>,
    hour: &Vec<char>,
    day_of_month: &Vec<char>,
    month: &Vec<char>,
    day_of_week: &Vec<char>,
    explanation: &Vec<char>,
) -> (r: CronSpec)
    ensures
        r@ == cron_view(minute@, hour@, day_of_month@, month@, day_of_week@, explanation@),
{
    CronSpec::new(
        text_of(minute),
        text_of(hour),
        text_of(day_of_month),
        text_of(month),
        text_of(day_of_week),
        text_of(explanation),
    )
}

} // verus!
