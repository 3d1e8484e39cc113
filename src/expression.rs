//! The expression parser: normalizes a schedule phrase and tries the
//! recognizers in their fixed order.
use vstd::prelude::*;
use crate::recognize::{phrase_chars, phrase_of, raw_chars, raw_of};
use crate::schedule::{CronSpec, CronView};
use crate::text::{
    chars_of, collapse_spaces, join_with, lower_of, lowercase, replace, replace_lit, split_words,
    text_of, trim, trim_chars,
};

verus! {

/// Why an expression could not be read.
#[derive(PartialEq, Eq, Structural, Debug, Clone, Copy)]
pub enum ParseError {
    /// The expression is blank.
    EmptyExpression,
    /// No recognizer accepts the expression.
    UnsupportedPhrasing,
}

pub open spec fn error_message(e: ParseError) -> Seq<char> {
    match e {
        ParseError::EmptyExpression => "The expression is empty"@,
        ParseError::UnsupportedPhrasing => "Unsupported phrasing. Use flag --list-patterns to list all supported shapes."@,
    }
}

impl ParseError {
    /// The message shown for this error.
    pub fn message(&self) -> (r: String)
        ensures
            r@ == error_message(*self),
    {
        match self {
            ParseError::EmptyExpression => String::from_str("The expression is empty"),
            ParseError::UnsupportedPhrasing => String::from_str(
                "Unsupported phrasing. Use flag --list-patterns to list all supported shapes.",
            ),
        }
    }
}

pub open spec fn result_view(r: Result<CronSpec, ParseError>) -> Result<CronView, ParseError> {
    match r {
        Ok(c) => Ok(c@),
        Err(e) => Err(e),
    }
}

/// En and em dashes made ASCII hyphens.
pub open spec fn dashes_unified(l: Seq<char>) -> Seq<char> {
    replace(replace(l, "\u{2013}"@, "-"@), "\u{2014}"@, "-"@)
}

/// The outcome on collapsed, lower-cased text.
pub open spec fn normalized_result(l: Seq<char>) -> Result<CronView, ParseError> {
    match phrase_of(dashes_unified(l)) {
        Some(c) => Ok(c),
        None => Err(ParseError::UnsupportedPhrasing),
    }
}

/// The outcome on an expression: blank is an error; a raw cron expression
/// passes through; otherwise the phrase recognizers decide.
pub open spec fn expression_result(s: Seq<char>) -> Result<CronView, ParseError> {
    let t = trim(s);
    if t.len() == 0 {
        Err(ParseError::EmptyExpression)
    } else {
        match raw_of(t) {
            Some(c) => Ok(c),
            None => normalized_result(lower_of(collapse_spaces(t))),
        }
    }
}

/// Reads collapsed, lower-cased text with the phrase recognizers.
pub fn parse_normalized(text: &str) -> (r: Result<CronSpec, ParseError>)
    ensures
        result_view(r) == normalized_result(text@),
{
    proof {
        reveal_strlit("\u{2013}");
        reveal_strlit("\u{2014}");
    }
    let t = chars_of(text);
    let a = replace_lit(&t, "\u{2013}", "-");
    let b = replace_lit(&a, "\u{2014}", "-");
    match phrase_chars(&b) {
        Some(c) => Ok(c),
        None => Err(ParseError::UnsupportedPhrasing),
    }
}

/// Reads a schedule expression into a schedule record.
pub fn parse_expression(expression: &str) -> (r: Result<CronSpec, ParseError>)
    ensures
        result_view(r) == expression_result(expression@),
{
    let s = chars_of(expression);
    let t = trim_chars(&s);
    if t.len() == 0 {
        return Err(ParseError::EmptyExpression);
    }
    if let Some(c) = raw_chars(&t) {
        return Ok(c);
    }
    let ws = split_words(&t);
    let collapsed = join_with(&ws, " ");
    proof {
        reveal_strlit(" ");
        assert(" "@ =~= seq![' ']);
    }
    assert(collapsed@ == collapse_spaces(t@));
    let lowered = lowercase(text_of(&collapsed).as_str());
    parse_normalized(lowered.as_str())
}

} // verus!
