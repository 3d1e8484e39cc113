//! The crontab entry around a schedule: its command, comment and
//! environment lines, and their text.
use vstd::prelude::*;
use crate::schedule::{cron_line, CronSpec};
use crate::text::{
    chars_of, join, join_with, push_all, push_lit, split_once, split_once_lit, text_of, trim,
    trim_chars, views,
};

verus! {

/// An environment assignment placed before the entry.
pub struct EnvVar {
    pub key: String,
    pub value: String,
}

/// The key and value of `key=value`, both trimmed, or the message of why not.
pub open spec fn env_result(raw: Seq<char>) -> Result<(Seq<char>, Seq<char>), Seq<char>> {
    match split_once(raw, "="@) {
        None => Err("Expected key=value"@),
        Some((k, v)) => if trim(k).len() == 0 {
            Err("Environment key cannot be empty"@)
        } else {
            Ok((trim(k), trim(v)))
        },
    }
}

pub open spec fn env_view(r: Result<EnvVar, String>) -> Result<(Seq<char>, Seq<char>), Seq<char>> {
    match r {
        Ok(e) => Ok((e.key@, e.value@)),
        Err(m) => Err(m@),
    }
}

/// Reads `key=value`, splitting at the first `=`.
pub fn parse_env_var(raw: &str) -> (r: Result<EnvVar, String>)
    ensures
        env_view(r) == env_result(raw@),
{
    let t = chars_of(raw);
    match split_once_lit(&t, "=") {
        None => Err(String::from_str("Expected key=value")),
        Some((k, v)) => {
            let key = trim_chars(&k);
            if key.len() == 0 {
                Err(String::from_str("Environment key cannot be empty"))
            } else {
                let value = trim_chars(&v);
                Ok(EnvVar { key: text_of(&key), value: text_of(&value) })
            }
        },
    }
}

/// What `shlex::try_quote` returns for a word it accepts.
pub uninterp spec fn quoted_of(s: Seq<char>) -> Seq<char>;

/// Relies on `shlex::try_quote`: it fails exactly on a word holding a nul,
/// and otherwise returns the word quoted for a POSIX shell.
#[verifier::external_body]
fn quote_word(s: &str) -> (r: Option<String>)
    ensures
        r is None <==> s@.contains('\0'),
        r matches Some(q) ==> q@ == quoted_of(s@),
{
    shlex::try_quote(s).ok().map(|q| q.into_owned())
}

pub open spec fn string_views(v: Seq<String>) -> Seq<Seq<char>> {
    v.map_values(|s: String| s@)
}

/// The words, each quoted, joined by single spaces.
pub open spec fn quoted_command(parts: Seq<Seq<char>>) -> Seq<char> {
    join(parts.map_values(|p: Seq<char>| quoted_of(p)), " "@)
}

/// The command line of an entry: each word shell-quoted, joined by spaces;
/// `Err(i)` names the first word that holds a nul and cannot be quoted.
pub fn quote_command(parts: &Vec<String>) -> (r: Result<String, usize>)
    ensures
        r matches Ok(c) ==> (forall|j: int|
            0 <= j < parts@.len() ==> !(#[trigger] parts@[j])@.contains('\0')) && c@
            == quoted_command(string_views(parts@)),
        r matches Err(i) ==> i < parts@.len() && parts@[i as int]@.contains('\0') && (forall|j: int|
            0 <= j < i ==> !(#[trigger] parts@[j])@.contains('\0')),
{
    let mut words: Vec<Vec<char>> = Vec::new();
    let mut k: usize = 0;
    while k < parts.len()
        invariant
            k <= parts@.len(),
            forall|j: int| 0 <= j < k ==> !(#[trigger] parts@[j])@.contains('\0'),
            views(words@) == string_views(parts@).take(k as int).map_values(
                |p: Seq<char>| quoted_of(p),
            ),
        decreases parts@.len() - k,
    {
        match quote_word(parts[k].as_str()) {
            None => {
                return Err(k);
            },
            Some(q) => {
                let ghost prev = words@;
                words.push(chars_of(q.as_str()));
                assert(views(words@) =~= views(prev).push(quoted_of(parts@[k as int]@)));
                assert(string_views(parts@).take(k + 1) =~= string_views(parts@).take(
                    k as int,
                ).push(parts@[k as int]@));
                k = k + 1;
                assert(views(words@) =~= string_views(parts@).take(k as int).map_values(
                    |p: Seq<char>| quoted_of(p),
                ));
            },
        }
    }
    assert(string_views(parts@).take(k as int) =~= string_views(parts@));
    let line = join_with(&words, " ");
    Ok(text_of(&line))
}

/// A schedule with its command, optional comment and environment.
pub struct CronEntry {
    pub schedule: CronSpec,
    pub command: String,
    pub comment: Option<String>,
    pub env: Vec<EnvVar>,
}

pub open spec fn env_line(e: EnvVar) -> Seq<char> {
    e.key@ + "="@ + e.value@
}

/// The lines of an entry: `# comment` if any, one `key=value` per
/// variable, then the schedule line and the command.
pub open spec fn entry_lines(e: CronEntry) -> Seq<Seq<char>> {
    let head = match e.comment {
        Some(c) => seq!["# "@ + c@],
        None => Seq::empty(),
    };
    head + e.env@.map_values(|v: EnvVar| env_line(v)) + seq![
        cron_line(e.schedule@) + " "@ + e.command@,
    ]
}

/// The entry's text: its lines joined by newlines.
pub fn render_entry(entry: &CronEntry) -> (r: String)
    ensures
        r@ == join(entry_lines(*entry), "\n"@),
{
    let mut lines: Vec<Vec<char>> = Vec::new();
    match &entry.comment {
        Some(c) => {
            let mut l: Vec<char> = Vec::new();
            push_lit(&mut l, "# ");
            push_all(&mut l, &chars_of(c.as_str()));
            lines.push(l);
        },
        None => {},
    }
    let ghost head = views(lines@);
    let mut k: usize = 0;
    while k < entry.env.len()
        invariant
            k <= entry.env@.len(),
            views(lines@) == head + entry.env@.take(k as int).map_values(
                |v: EnvVar| env_line(v),
            ),
        decreases entry.env@.len() - k,
    {
        let e = &entry.env[k];
        let mut l = chars_of(e.key.as_str());
        push_lit(&mut l, "=");
        push_all(&mut l, &chars_of(e.value.as_str()));
        let ghost prev = lines@;
        lines.push(l);
        assert(views(lines@) =~= views(prev).push(env_line(entry.env@[k as int])));
        assert(entry.env@.take(k + 1) =~= entry.env@.take(k as int).push(entry.env@[k as int]));
        k = k + 1;
        assert(views(lines@) =~= head + entry.env@.take(k as int).map_values(
            |v: EnvVar| env_line(v),
        ));
    }
    assert(entry.env@.take(k as int) =~= entry.env@);
    let mut last = chars_of(entry.schedule.as_string().as_str());
    push_lit(&mut last, " ");
    push_all(&mut last, &chars_of(entry.command.as_str()));
    let ghost prev = lines@;
    lines.push(last);
    assert(views(lines@) =~= views(prev).push(last@));
    assert(views(lines@) =~= entry_lines(*entry));
    let text = join_with(&lines, "\n");
    text_of(&text)
}

} // verus!
