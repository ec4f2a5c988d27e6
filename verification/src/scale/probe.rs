//! Deciding whether a serial port has a scale on it.
//!
//! The caller reads the port and reports each read as a `ProbeEvent`;
//! `SerialPortProbe::probe_step` keeps the text seen so far and says what to do next.
use vstd::prelude::*;
use vstd::utf8::{decode_utf8, valid_utf8};
use super::frame::append_raw;
use super::parser::{finds_weight, parse_weight};
use crate::text::{
    ascii_lower, chars_of, contains_chars, contains_text, lower_chars, string_from_chars,
    to_owned_string,
};
use crate::utf8len::{fits_byte_suffix, has_byte_suffix, is_byte_suffix_start};

verus! {

/// How many bytes of recent text the probe keeps.
pub const PROBE_RAW_LIMIT: usize = 240;

/// What probing a port found.
#[derive(Clone, Copy, Debug, PartialEq, Eq, Structural)]
pub struct ProbeOutcome {
    pub parsed_weight: bool,
    pub has_data: bool,
}

impl ProbeOutcome {
    /// The port sent text that holds a weight.
    pub fn parsed_weight() -> (r: ProbeOutcome)
        ensures
            r.parsed_weight && r.has_data,
    {
        ProbeOutcome { parsed_weight: true, has_data: true }
    }

    /// The port sent data but no weight.
    pub fn data() -> (r: ProbeOutcome)
        ensures
            !r.parsed_weight && r.has_data,
    {
        ProbeOutcome { parsed_weight: false, has_data: true }
    }

    /// The port stayed silent.
    pub fn empty() -> (r: ProbeOutcome)
        ensures
            !r.parsed_weight && !r.has_data,
    {
        ProbeOutcome { parsed_weight: false, has_data: false }
    }
}

/// `Duration` is `Copy`; its `clone` gives the same duration.
pub assume_specification[ <std::time::Duration as Clone>::clone ](d: &std::time::Duration) -> (r:
    std::time::Duration)
    ensures
        r == *d,
;

/// Probes serial ports for a scale that sends weights.
#[derive(Clone, Debug)]
pub struct SerialPortProbe {
    timeout: std::time::Duration,
    default_unit: String,
}

/// What the probe has seen on a port so far.
#[derive(Clone, Debug)]
pub struct ProbeState {
    pub raw: String,
    pub has_data: bool,
}

/// One read of the port, as the caller saw it.
#[derive(Clone, Debug)]
pub enum ProbeEvent {
    /// The read returned these bytes (at least one).
    Bytes(Vec<u8>),
    /// The read returned no bytes.
    NoBytes,
    /// The read timed out or would block.
    WouldWait,
    /// The read failed with this message.
    Failed(String),
    /// The probe's time is up.
    Deadline,
}

/// What the caller does next.
#[derive(Debug)]
pub enum ProbeAction {
    ReadAgain,
    /// Pause briefly, then read again.
    PauseThenReadAgain,
    Finish(Result<ProbeOutcome, String>),
    /// Keeping the last bytes of the text would cut a character in two; the
    /// probe cannot go on.
    CutInsideCharacter,
}

/// The text that `String::from_utf8_lossy` makes of some bytes.
pub uninterp spec fn lossy_utf8(bytes: Seq<u8>) -> Seq<char>;

/// Decodes bytes with `String::from_utf8_lossy`, which replaces each invalid
/// sequence with U+FFFD. Trusted: the result is named `lossy_utf8`, and for
/// valid UTF-8 it is the plain decoding, as the standard library documents.
#[verifier::external_body]
fn decode_lossy(bytes: &[u8]) -> (r: String)
    ensures
        r@ == lossy_utf8(bytes@),
        valid_utf8(bytes@) ==> r@ == decode_utf8(bytes@),
{
    String::from_utf8_lossy(bytes).into_owned()
}

impl SerialPortProbe {
    /// A probe that reads each port for `timeout` and reads weights in
    /// `default_unit` when the scale names none.
    pub fn new(timeout: std::time::Duration, default_unit: &str) -> (r: SerialPortProbe)
        ensures
            r.spec_timeout() == timeout,
            r.spec_default_unit() == default_unit@,
    {
        SerialPortProbe { timeout, default_unit: to_owned_string(default_unit) }
    }

    pub closed spec fn spec_timeout(&self) -> std::time::Duration {
        self.timeout
    }

    pub closed spec fn spec_default_unit(&self) -> Seq<char> {
        self.default_unit@
    }

    /// How long each port is read.
    pub fn timeout(&self) -> (r: std::time::Duration)
        ensures
            r == self.spec_timeout(),
    {
        self.timeout
    }

    /// The unit assumed when the scale names none.
    pub fn default_unit(&self) -> (r: &str)
        ensures
            r@ == self.spec_default_unit(),
    {
        self.default_unit.as_str()
    }

    /// The state before the first read.
    pub fn probe_start(&self) -> (r: ProbeState)
        ensures
            r.raw@.len() == 0,
            !r.has_data,
    {
        ProbeState { raw: String::new(), has_data: false }
    }

    /// Takes one read of the port. Bytes are decoded (invalid sequences
    /// replaced), appended to the text seen, and only the last 240 bytes kept;
    /// when that text holds a weight, the port has a scale. A silent read
    /// means reading again, a timeout pausing first, a failure ends the probe
    /// with its message, and at the deadline the probe reports whether any
    /// data came.
    pub fn probe_step(&self, state: ProbeState, event: ProbeEvent) -> (r: (ProbeState, ProbeAction))
        ensures
            match event {
                ProbeEvent::Bytes(bytes) => {
                    let combined = state.raw@ + lossy_utf8(bytes@);
                    if !has_byte_suffix(combined, PROBE_RAW_LIMIT as nat) {
                        r.1 is CutInsideCharacter
                    } else {
                        &&& r.0.has_data
                        &&& exists|k: int|
                            is_byte_suffix_start(combined, PROBE_RAW_LIMIT as nat, k) && r.0.raw@
                                == combined.skip(k)
                        &&& if finds_weight(r.0.raw@, self.spec_default_unit()) {
                            r.1 == ProbeAction::Finish(Ok(ProbeOutcome { parsed_weight: true, has_data: true }))
                        } else {
                            r.1 is ReadAgain
                        }
                    }
                },
                ProbeEvent::NoBytes => r.0 == state && r.1 is ReadAgain,
                ProbeEvent::WouldWait => r.0 == state && r.1 is PauseThenReadAgain,
                ProbeEvent::Failed(message) => r.1 == ProbeAction::Finish(Err(message)),
                ProbeEvent::Deadline => r.1 == ProbeAction::Finish(
                    Ok(ProbeOutcome { parsed_weight: false, has_data: state.has_data }),
                ),
            },
    {
        match event {
            ProbeEvent::Bytes(bytes) => {
                let text = decode_lossy(bytes.as_slice());
                let mut combined = chars_of(state.raw.as_str());
                let extra = chars_of(text.as_str());
                let mut i: usize = 0;
                let ghost start = combined@;
                while i < extra.len()
                    invariant
                        i <= extra@.len(),
                        combined@ == start + extra@.take(i as int),
                    decreases extra.len() - i,
                {
                    combined.push(extra[i]);
                    i += 1;
                    assert(combined@ =~= start + extra@.take(i as int));
                }
                assert(extra@.take(extra@.len() as int) =~= extra@);
                if !fits_byte_suffix(&combined, PROBE_RAW_LIMIT) {
                    return (state, ProbeAction::CutInsideCharacter);
                }
                let raw = append_raw(state.raw.as_str(), text.as_str(), PROBE_RAW_LIMIT);
                let found = parse_weight(raw.as_str(), self.default_unit.as_str()).is_some();
                let next = ProbeState { raw, has_data: true };
                if found {
                    (next, ProbeAction::Finish(Ok(ProbeOutcome::parsed_weight())))
                } else {
                    (next, ProbeAction::ReadAgain)
                }
            },
            ProbeEvent::NoBytes => (state, ProbeAction::ReadAgain),
            ProbeEvent::WouldWait => (state, ProbeAction::PauseThenReadAgain),
            ProbeEvent::Failed(message) => (state, ProbeAction::Finish(Err(message))),
            ProbeEvent::Deadline => {
                let outcome = if state.has_data {
                    ProbeOutcome::data()
                } else {
                    ProbeOutcome::empty()
                };
                (state, ProbeAction::Finish(Ok(outcome)))
            },
        }
    }
}

/// Whether opening a device failed only because it is a pseudo-terminal
/// rather than a serial port, so that reading it as a plain file may work.
pub open spec fn is_pty_open_error(err: Seq<char>) -> bool {
    contains_text(ascii_lower(err), "not a typewriter"@) || contains_text(
        ascii_lower(err),
        "inappropriate ioctl for device"@,
    )
}

/// Whether an open error means the device should be read as a pseudo-terminal
/// instead (the message, in any ASCII case, names `not a typewriter` or
/// `inappropriate ioctl for device`).
pub fn should_try_unix_pty_fallback(err: &str) -> (r: bool)
    ensures
        r == is_pty_open_error(err@),
{
    let lower = lower_chars(&chars_of(err));
    let a = chars_of("not a typewriter");
    let b = chars_of("inappropriate ioctl for device");
    contains_chars(&lower, &a) || contains_chars(&lower, &b)
}

} // verus!
