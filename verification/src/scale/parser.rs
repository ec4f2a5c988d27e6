//! Reading a weight out of the text that a scale sends.
//!
//! The frame is scanned with a regular expression (the `regex` crate); each
//! match is a candidate weight (see `candidates`). Signed weights and weights
//! with a unit are preferred, a negative sign most of all, and among equals
//! the later match wins. The weight is reported as decimal text, exactly as
//! the frame gave it (sign applied, a decimal comma read as a point);
//! `str::parse::<f64>` reads that text.
use vstd::prelude::*;
use crate::text::{chars_of, string_from_chars};
use super::candidates::{best, candidates, select_weight};

verus! {

/// The weight pattern: an optional sign or `N` before the number, the number
/// with an optional decimal point or comma, an optional unit, and an optional
/// trailing sign.
pub const WEIGHT_PATTERN: &'static str = r"(?i)([-+N]?)\s*(\d+(?:[.,]\d+)?)\s*(kg|g|lb|lbs|oz)?\s*([-+]?)";

/// The marker of a settled reading.
pub const STABLE_PATTERN: &'static str = r"(?i)\bST\b|\bSTABLE\b";

/// The marker of a reading still in motion.
pub const UNSTABLE_PATTERN: &'static str = r"(?i)\bUS\b|\bUNSTABLE\b";

/// The capture groups of each successive non-overlapping match of `pattern`
/// in `haystack`, as `regex::Regex::captures_iter` yields them: per group its
/// start (a byte offset) and text, `None` for a group that took no part.
/// `None` overall when `pattern` does not compile.
pub uninterp spec fn regex_captures(pattern: Seq<char>, haystack: Seq<char>) -> Option<
    Seq<Seq<Option<(usize, Seq<char>)>>>,
>;

/// Whether `pattern` matches somewhere in `haystack`
/// (`regex::Regex::is_match`); `None` when `pattern` does not compile.
pub uninterp spec fn regex_is_match(pattern: Seq<char>, haystack: Seq<char>) -> Option<bool>;

/// Compiles `pattern` with `regex::Regex::new` and collects the groups of
/// every match that `Regex::captures_iter` yields on `haystack`. Trusted: the
/// result is what the regex crate computes, named `regex_captures`; nothing
/// more is claimed of it.
#[verifier::external_body]
fn captures_all(pattern: &str, haystack: &str) -> (r: Option<Vec<Vec<Option<(usize, String)>>>>)
    ensures
        r.deep_view() == regex_captures(pattern@, haystack@),
{
    let re = regex::Regex::new(pattern).ok()?;
    Some(
        re.captures_iter(haystack).map(
            |caps| caps.iter().map(|g| g.map(|m| (m.start(), m.as_str().to_string()))).collect(),
        ).collect(),
    )
}

/// Compiles `pattern` with `regex::Regex::new` and asks `Regex::is_match` on
/// `haystack`. Trusted: the result is the regex crate's, named `regex_is_match`.
#[verifier::external_body]
fn matches_somewhere(pattern: &str, haystack: &str) -> (r: Option<bool>)
    ensures
        r == regex_is_match(pattern@, haystack@),
{
    regex::Regex::new(pattern).ok().map(|re| re.is_match(haystack))
}

/// A weight found in a frame.
#[derive(Clone, Debug, PartialEq)]
pub struct ParsedWeight {
    /// The weight as decimal text: an optional sign, digits, and an optional
    /// point followed by digits.
    pub weight: String,
    pub unit: String,
    pub stable: Option<bool>,
}

/// The minus-like characters U+2212, U+2013 and U+2014, read as `-`.
pub open spec fn minus_normalized_char(c: char) -> char {
    if c == '\u{2212}' || c == '\u{2013}' || c == '\u{2014}' {
        '-'
    } else {
        c
    }
}

pub open spec fn minus_normalized(s: Seq<char>) -> Seq<char> {
    s.map_values(|c: char| minus_normalized_char(c))
}

fn normalize_minus(raw: &str) -> (r: String)
    ensures
        r@ == minus_normalized(raw@),
{
    let v = chars_of(raw);
    let mut w: Vec<char> = Vec::new();
    let mut i: usize = 0;
    while i < v.len()
        invariant
            i <= v@.len(),
            w@ == minus_normalized(v@.take(i as int)),
        decreases v.len() - i,
    {
        let c = v[i];
        if c == '\u{2212}' || c == '\u{2013}' || c == '\u{2014}' {
            w.push('-');
        } else {
            w.push(c);
        }
        i += 1;
        assert(w@ =~= minus_normalized(v@.take(i as int)));
    }
    assert(v@.take(v@.len() as int) =~= v@);
    string_from_chars(&w)
}

/// The stability of a frame from its markers: an unstable marker wins over a
/// stable one; with neither it is unknown.
pub open spec fn stability(unstable: bool, stable: bool) -> Option<bool> {
    if unstable {
        Some(false)
    } else if stable {
        Some(true)
    } else {
        None
    }
}

/// Whether `pattern` is found in `text`; a pattern that does not compile finds nothing.
pub open spec fn marker_found(pattern: Seq<char>, text: Seq<char>) -> bool {
    regex_is_match(pattern, text) == Some(true)
}

/// The stability of a frame from its markers.
pub fn stability_from_markers(unstable: bool, stable: bool) -> (r: Option<bool>)
    ensures
        r == stability(unstable, stable),
{
    if unstable {
        Some(false)
    } else if stable {
        Some(true)
    } else {
        None
    }
}

/// Whether `parse_weight` finds a weight in `raw`.
pub open spec fn finds_weight(raw: Seq<char>, default_unit: Seq<char>) -> bool {
    match regex_captures(WEIGHT_PATTERN@, minus_normalized(raw)) {
        None => false,
        Some(ms) => best(candidates(ms, default_unit)) is Some,
    }
}

/// Reads the best weight out of a scale frame. Minus-like dashes count as
/// `-`. Among the matches of `WEIGHT_PATTERN` whose weight is accepted, the
/// best candidate wins (see `best`); its unit falls back to `default_unit`.
/// The frame's stability comes from its markers. `None` when no match gives
/// an accepted weight.
pub fn parse_weight(raw: &str, default_unit: &str) -> (r: Option<ParsedWeight>)
    ensures
        r is Some <==> finds_weight(raw@, default_unit@),
        ({
            let text = minus_normalized(raw@);
            match regex_captures(WEIGHT_PATTERN@, text) {
                None => r is None,
                Some(ms) => match best(candidates(ms, default_unit@)) {
                    None => r is None,
                    Some(c) => r matches Some(p) && p.weight@ == c.weight && p.unit@ == c.unit
                        && p.stable == stability(
                        marker_found(UNSTABLE_PATTERN@, text),
                        marker_found(STABLE_PATTERN@, text),
                    ),
                },
            }
        }),
{
    let normalized = normalize_minus(raw);
    let matches = match captures_all(WEIGHT_PATTERN, normalized.as_str()) {
        Some(ms) => ms,
        None => {
            return None;
        },
    };
    let (weight, unit) = match select_weight(&matches, default_unit) {
        Some(p) => p,
        None => {
            return None;
        },
    };
    let unstable = match matches_somewhere(UNSTABLE_PATTERN, normalized.as_str()) {
        Some(found) => found,
        None => false,
    };
    let stable = match matches_somewhere(STABLE_PATTERN, normalized.as_str()) {
        Some(found) => found,
        None => false,
    };
    Some(ParsedWeight { weight, unit, stable: stability_from_markers(unstable, stable) })
}

pub open spec fn stable_name(stable: Option<bool>) -> Seq<char> {
    match stable {
        Some(true) => "stable"@,
        Some(false) => "unstable"@,
        None => "unknown"@,
    }
}

/// The stability as a word for status lines.
pub fn stable_text(stable: Option<bool>) -> (r: &'static str)
    ensures
        r@ == stable_name(stable),
{
    match stable {
        Some(true) => "stable",
        Some(false) => "unstable",
        None => "unknown",
    }
}

} // verus!
