//! One reading of a scale, as drivers report it and the core keeps it.
use vstd::prelude::*;
use crate::print_core::job::Kilograms;
use crate::text::{decimal, push_decimal, push_str, to_owned_string, trim, trim_str};

verus! {

#[verifier::external_type_specification]
#[verifier::external_body]
pub struct ExSystemTime(std::time::SystemTime);

/// `SystemTime` is `Copy`; its `clone` gives the same instant.
pub assume_specification[ <std::time::SystemTime as Clone>::clone ](t: &std::time::SystemTime) -> (r:
    std::time::SystemTime)
    ensures
        r == *t,
;

/// The current time (`SystemTime::now`). Trusted: nothing is claimed of the
/// instant it returns.
#[verifier::external_body]
fn now() -> (r: std::time::SystemTime) {
    std::time::SystemTime::now()
}

/// A reading: where it came from, the weight if any, the raw text, the last
/// error, and when it was taken.
#[derive(Clone, Debug, PartialEq)]
pub struct Reading {
    pub source: String,
    pub port: String,
    pub baud: u32,
    pub weight: Option<Kilograms>,
    pub unit: String,
    pub stable: Option<bool>,
    pub raw: String,
    pub error: String,
    pub updated_at: std::time::SystemTime,
}

impl Reading {
    /// An empty reading from `source` on `port` (both trimmed), in `unit`.
    pub fn from_source(source: &str, port: &str, baud: u32, unit: &str) -> (r: Reading)
        ensures
            r.source@ == trim(source@),
            r.port@ == trim(port@),
            r.baud == baud,
            r.weight is None,
            r.unit@ == unit@,
            r.stable is None,
            r.raw@.len() == 0,
            r.error@.len() == 0,
    {
        Reading {
            source: trim_str(source),
            port: trim_str(port),
            baud,
            weight: None,
            unit: to_owned_string(unit),
            stable: None,
            raw: String::new(),
            error: String::new(),
            updated_at: now(),
        }
    }

    /// An empty reading from the serial driver.
    pub fn serial(port: &str, baud: u32, unit: &str) -> (r: Reading)
        ensures
            r.source@ == trim("serial"@),
            r.port@ == trim(port@),
            r.baud == baud,
            r.weight is None,
            r.unit@ == unit@,
            r.stable is None,
            r.raw@.len() == 0,
            r.error@.len() == 0,
    {
        Self::from_source("serial", port, baud, unit)
    }

    /// The reading with a weight, its stability and the raw text it came from.
    pub fn with_weight(self, weight: Kilograms, stable: Option<bool>, raw: &str) -> (r: Reading)
        ensures
            r.weight == Some(weight),
            r.stable == stable,
            r.raw@ == raw@,
            r.source == self.source,
            r.port == self.port,
            r.baud == self.baud,
            r.unit == self.unit,
            r.error == self.error,
    {
        let mut r = self;
        r.weight = Some(weight);
        r.stable = stable;
        r.raw = to_owned_string(raw);
        r.updated_at = now();
        r
    }

    /// The reading with new raw text.
    pub fn with_raw(self, raw: &str) -> (r: Reading)
        ensures
            r.raw@ == raw@,
            r.source == self.source,
            r.port == self.port,
            r.baud == self.baud,
            r.weight == self.weight,
            r.unit == self.unit,
            r.stable == self.stable,
            r.error == self.error,
    {
        let mut r = self;
        r.raw = to_owned_string(raw);
        r.updated_at = now();
        r
    }

    /// The reading with an error message.
    pub fn with_error(self, error: &str) -> (r: Reading)
        ensures
            r.error@ == error@,
            r.source == self.source,
            r.port == self.port,
            r.baud == self.baud,
            r.weight == self.weight,
            r.unit == self.unit,
            r.stable == self.stable,
            r.raw == self.raw,
    {
        let mut r = self;
        r.error = to_owned_string(error);
        r.updated_at = now();
        r
    }
}

/// The word for a reading's stability: `true`, `false`, or `unknown`.
pub open spec fn stable_word(stable: Option<bool>) -> Seq<char> {
    match stable {
        Some(true) => "true"@,
        Some(false) => "false"@,
        None => "unknown"@,
    }
}

/// A reading as one line of `key=value` fields, with `weight` as the text of
/// its weight.
pub open spec fn reading_line(r: Reading, weight: Seq<char>) -> Seq<char> {
    "source="@ + r.source@ + " port="@ + r.port@ + " baud="@ + decimal(r.baud as nat)
        + " weight="@ + weight + " unit="@ + r.unit@ + " stable="@ + stable_word(r.stable)
        + " raw="@ + r.raw@ + " error="@ + r.error@
}

/// Writes a reading as one line: source, port, baud, weight (written by
/// `format_kg`, or `-` when there is none), unit, stability, raw text and
/// error.
pub fn format_reading<F: Fn(Kilograms) -> String>(reading: &Reading, format_kg: &F) -> (r: String)
    requires
        forall|k: Kilograms| call_requires(*format_kg, (k,)),
    ensures
        match reading.weight {
            Some(w) => exists|g: String|
                call_ensures(*format_kg, (w,), g) && r@ == reading_line(*reading, g@),
            None => r@ == reading_line(*reading, "-"@),
        },
{
    let weight = match reading.weight {
        Some(w) => format_kg(w),
        None => to_owned_string("-"),
    };
    let stable = match reading.stable {
        Some(true) => "true",
        Some(false) => "false",
        None => "unknown",
    };
    let mut out = to_owned_string("source=");
    push_str(&mut out, reading.source.as_str());
    push_str(&mut out, " port=");
    push_str(&mut out, reading.port.as_str());
    push_str(&mut out, " baud=");
    push_decimal(&mut out, reading.baud as u64);
    push_str(&mut out, " weight=");
    push_str(&mut out, weight.as_str());
    push_str(&mut out, " unit=");
    push_str(&mut out, reading.unit.as_str());
    push_str(&mut out, " stable=");
    push_str(&mut out, stable);
    push_str(&mut out, " raw=");
    push_str(&mut out, reading.raw.as_str());
    push_str(&mut out, " error=");
    push_str(&mut out, reading.error.as_str());
    assert(out@ =~= reading_line(*reading, weight@));
    out
}

/// A decoder that turns the chunks of text a scale sends into readings.
pub trait ScaleChunkDecoder {
    fn push_chunk(&mut self, chunk: &str) -> Vec<Reading>;
}

} // verus!
