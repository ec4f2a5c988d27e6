//! Scale-side logic: framing, weight parsing, capabilities, readings and probing.
pub mod candidates;
pub mod capabilities;
pub mod frame;
pub mod parser;
pub mod probe;
pub mod reading;
pub mod scale_core;
pub mod weight_text;

pub use capabilities::{ScaleCapabilities, ScaleDriver, ScaleTransport};
pub use frame::{append_raw, pop_serial_frame, sanitize_inline};
pub use parser::{ParsedWeight, parse_weight, stable_text};
pub use probe::{ProbeOutcome, SerialPortProbe};
pub use reading::{Reading, ScaleChunkDecoder, format_reading};
pub use scale_core::ScaleCoreState;
