//! Terminal colouring of report text, and capitalization.
use vstd::prelude::*;
use owo_colors::OwoColorize;
use crate::text::{push_all, text_of};

verus! {

/// What `char::to_uppercase` yields for a character.
pub uninterp spec fn upper_of(c: char) -> Seq<char>;

/// Relies on `char::to_uppercase`: the result depends on the character alone.
#[verifier::external_body]
fn uppercase_char(c: char) -> (r: String)
    ensures
        r@ == upper_of(c),
{
    c.to_uppercase().collect()
}

/// Relies on owo-colors' `bright_cyan`: ESC `[96m`, the text, ESC `[39m`.
#[verifier::external_body]
fn bright_cyan_text(s: &str) -> (r: String)
    ensures
        r@ == "\u{1b}[96m"@ + s@ + "\u{1b}[39m"@,
{
    s.bright_cyan().to_string()
}

/// Relies on owo-colors' `bright_green`: ESC `[92m`, the text, ESC `[39m`.
#[verifier::external_body]
fn bright_green_text(s: &str) -> (r: String)
    ensures
        r@ == "\u{1b}[92m"@ + s@ + "\u{1b}[39m"@,
{
    s.bright_green().to_string()
}

/// Relies on owo-colors' `bright_yellow`: ESC `[93m`, the text, ESC `[39m`.
#[verifier::external_body]
fn bright_yellow_text(s: &str) -> (r: String)
    ensures
        r@ == "\u{1b}[93m"@ + s@ + "\u{1b}[39m"@,
{
    s.bright_yellow().to_string()
}

/// The text with its first character upper-cased.
pub open spec fn capitalized(s: Seq<char>) -> Seq<char> {
    if s.len() == 0 {
        s
    } else {
        upper_of(s[0]) + s.drop_first()
    }
}

pub fn capitalize(text: &str) -> (r: String)
    ensures
        r@ == capitalized(text@),
{
    let t = crate::text::chars_of(text);
    if t.len() == 0 {
        return String::new();
    }
    let first = uppercase_char(t[0]);
    let mut v = crate::text::chars_of(first.as_str());
    let rest = crate::text::skip_of(&t, 1);
    push_all(&mut v, &rest);
    assert(t@.skip(1) =~= t@.drop_first());
    text_of(&v)
}

/// Colours text for a terminal, or leaves it plain.
pub struct Painter {
    pub enabled: bool,
}

/// `text` between the escape codes of a colour when painting is on.
pub open spec fn painted(enabled: bool, code: Seq<char>, text: Seq<char>) -> Seq<char> {
    if enabled {
        "\u{1b}["@ + code + "m"@ + text + "\u{1b}[39m"@
    } else {
        text
    }
}

impl Painter {
    pub fn new(enabled: bool) -> (r: Self)
        ensures
            r.enabled == enabled,
    {
        Painter { enabled }
    }

    /// Headings: bright cyan.
    pub fn accent(&self, text: &str) -> (r: String)
        ensures
            r@ == painted(self.enabled, "96"@, text@),
    {
        proof {
            reveal_strlit("\u{1b}[96m");
            reveal_strlit("\u{1b}[");
            reveal_strlit("96");
            reveal_strlit("m");
            assert("\u{1b}[96m"@ =~= "\u{1b}["@ + "96"@ + "m"@);
        }
        if self.enabled {
            bright_cyan_text(text)
        } else {
            String::from_str(text)
        }
    }

    /// Good news: bright green.
    pub fn success(&self, text: &str) -> (r: String)
        ensures
            r@ == painted(self.enabled, "92"@, text@),
    {
        proof {
            reveal_strlit("\u{1b}[92m");
            reveal_strlit("\u{1b}[");
            reveal_strlit("92");
            reveal_strlit("m");
            assert("\u{1b}[92m"@ =~= "\u{1b}["@ + "92"@ + "m"@);
        }
        if self.enabled {
            bright_green_text(text)
        } else {
            String::from_str(text)
        }
    }

    /// Warnings: bright yellow.
    pub fn warn(&self, text: &str) -> (r: String)
        ensures
            r@ == painted(self.enabled, "93"@, text@),
    {
        proof {
            reveal_strlit("\u{1b}[93m");
            reveal_strlit("\u{1b}[");
            reveal_strlit("93");
            reveal_strlit("m");
            assert("\u{1b}[93m"@ =~= "\u{1b}["@ + "93"@ + "m"@);
        }
        if self.enabled {
            bright_yellow_text(text)
        } else {
            String::from_str(text)
        }
    }
}

} // verus!
