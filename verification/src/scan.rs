//! The boundary to the outside pattern engines. Every match the analyzers
//! work on comes through the trusted functions here: category matching
//! through `regex`, and the table-of-contents delimiters and entries
//! through `fancy_regex`. Each result that cannot be stated in a few lines
//! is given a name, and the analyzers' own contracts are exact over those
//! names.

use vstd::prelude::*;

verus! {

/// Whether `regex::Regex::new` accepts the pattern.
pub uninterp spec fn regex_ok(pattern: Seq<char>) -> bool;

/// The successive non-overlapping leftmost matches that
/// `regex::Regex::find_iter` yields for the pattern on the text, each as
/// its matched substring.
pub uninterp spec fn regex_matches(pattern: Seq<char>, text: Seq<char>) -> Seq<Seq<char>>;

/// The text after the end of the first table-of-contents heading match in
/// the text, when there is one.
pub uninterp spec fn toc_heading_rest(text: Seq<char>) -> Option<Seq<char>>;

/// The raw capture groups (index, title, page) of the successive
/// table-of-contents entry matches in the text.
pub uninterp spec fn toc_raw_entries(text: Seq<char>) -> Seq<(Seq<char>, Seq<char>, Seq<char>)>;

/// Whether the entry scan completes on the text — the engine's
/// backtracking limit is fixed, so giving up depends on the text alone.
pub uninterp spec fn toc_scan_ok(text: Seq<char>) -> bool;

/// Relies on `regex::Regex::new`: whether a pattern compiles depends on the
/// pattern alone.
#[verifier::external_body]
pub(crate) fn regex_compiles(pattern: &str) -> (r: bool)
    ensures
        r == regex_ok(pattern@),
{
    regex::Regex::new(pattern).is_ok()
}

/// Relies on `regex::Regex::find_iter`: the successive non-overlapping
/// leftmost matches, deterministic in the pattern and the text alone.
/// Returns `None` exactly when the pattern does not compile.
#[verifier::external_body]
pub(crate) fn regex_find_all(pattern: &str, text: &str) -> (r: Option<Vec<String>>)
    ensures
        r is Some <==> regex_ok(pattern@),
        r matches Some(v) ==> v.deep_view() == regex_matches(pattern@, text@),
{
    match regex::Regex::new(pattern) {
        Ok(re) => Some(re.find_iter(text).map(|m| m.as_str().to_string()).collect()),
        Err(_) => None,
    }
}

/// Relies on `fancy_regex::Regex::find` with the start-delimiter pattern
/// `(?i)\n(table of contents|contents|.*table of contents)\n`: the first
/// match is leftmost and deterministic in the text alone; the text after
/// its end is returned. An engine error counts as no match.
#[verifier::external_body]
pub(crate) fn toc_heading_split(text: &str) -> (r: Option<String>)
    ensures
        r is Some <==> toc_heading_rest(text@) is Some,
        r matches Some(rest) ==> toc_heading_rest(text@) == Some(rest@),
{
    let re = fancy_regex::Regex::new(
        r"(?i)\n(table of contents|contents|.*table of contents)\n",
    ).unwrap();
    match re.find(text) {
        Ok(Some(m)) => Some(text[m.end()..].to_string()),
        _ => None,
    }
}

/// The position of the leftmost pair of consecutive line breaks in `s`.
pub open spec fn first_blank_split(s: Seq<char>) -> Option<int>
    decreases s.len(),
{
    if s.len() < 2 {
        None
    } else if s[0] == '\n' && s[1] == '\n' {
        Some(0int)
    } else {
        match first_blank_split(s.drop_first()) {
            None => None,
            Some(i) => Some(i + 1),
        }
    }
}

/// Relies on `fancy_regex::Regex::find` with the end-delimiter pattern
/// `\n\n`: the match is the leftmost pair of consecutive line breaks. The
/// text before that pair is returned, with whether it was found; without
/// one, the whole text.
#[verifier::external_body]
pub(crate) fn split_before_blank_line(text: &str) -> (r: (String, bool))
    ensures
        match first_blank_split(text@) {
            Some(i) => r.1 && r.0@ == text@.subrange(0, i),
            None => !r.1 && r.0@ == text@,
        },
{
    let re = fancy_regex::Regex::new(r"\n\n").unwrap();
    match re.find(text) {
        Ok(Some(m)) => (text[..m.start()].to_string(), true),
        _ => (text.to_string(), false),
    }
}

/// Relies on `fancy_regex::Regex::captures_iter` with the entry pattern
/// `\s*([a-zA-Z0-9.]*[a-zA-Z0-9])\s*\.{0,1}([\w “(\-):”.\/’\[\]–]*?(?=\.{2}))\.*([0-9]*)`:
/// the capture groups (index, title, page) of the successive matches,
/// deterministic in the text alone. Returns `None` exactly when the engine
/// gives up on a match (its backtracking limit, a fixed default), which is
/// itself deterministic in the text alone.
#[verifier::external_body]
pub(crate) fn toc_entry_captures(text: &str) -> (r: Option<Vec<(String, String, String)>>)
    ensures
        r is Some <==> toc_scan_ok(text@),
        r matches Some(v) ==> v.deep_view() == toc_raw_entries(text@),
{
    let re = fancy_regex::Regex::new(
        r"\s*([a-zA-Z0-9.]*[a-zA-Z0-9])\s*\.{0,1}([\w “(\-):”.\/’\[\]–]*?(?=\.{2}))\.*([0-9]*)",
    ).unwrap();
    let mut out = Vec::new();
    for caps in re.captures_iter(text) {
        match caps {
            Ok(c) => out.push((
                c.get(1).map_or("", |m| m.as_str()).to_string(),
                c.get(2).map_or("", |m| m.as_str()).to_string(),
                c.get(3).map_or("", |m| m.as_str()).to_string(),
            )),
            Err(_) => return None,
        }
    }
    Some(out)
}

} // verus!
