//! Turns human-phrased schedules ("weekdays at 07:15", "every 15 minutes",
//! "monthly on 1st and 15th at 04:00", or a raw five-field cron line) into
//! a cron schedule and a sentence that explains it.
pub mod text;
pub mod clock;
pub mod days;
pub mod schedule;
pub mod recognize;
pub mod expression;
pub mod laws;
pub mod style;
pub mod entry;
