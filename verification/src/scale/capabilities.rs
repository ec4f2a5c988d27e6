//! What a scale driver offers, as the service reports it.
use vstd::prelude::*;
use crate::text::{ascii_lower, decimal, lower_trimmed, push_chars, push_decimal, push_str, string_from_chars, trim, trim_str};

verus! {

/// How the station reaches a scale.
#[derive(Clone, Debug, PartialEq, Eq, Structural)]
pub enum ScaleTransport {
    Serial,
    Usb,
    Wifi,
    Bluetooth,
    VendorSdk,
    Simulated,
}

impl ScaleTransport {
    pub open spec fn name(&self) -> Seq<char> {
        match self {
            ScaleTransport::Serial => "serial"@,
            ScaleTransport::Usb => "usb"@,
            ScaleTransport::Wifi => "wifi"@,
            ScaleTransport::Bluetooth => "bluetooth"@,
            ScaleTransport::VendorSdk => "vendor_sdk"@,
            ScaleTransport::Simulated => "simulated"@,
        }
    }

    /// The transport's name in status reports.
    pub fn as_str(&self) -> (r: &'static str)
        ensures
            r@ == self.name(),
    {
        match self {
            ScaleTransport::Serial => "serial",
            ScaleTransport::Usb => "usb",
            ScaleTransport::Wifi => "wifi",
            ScaleTransport::Bluetooth => "bluetooth",
            ScaleTransport::VendorSdk => "vendor_sdk",
            ScaleTransport::Simulated => "simulated",
        }
    }
}

/// What a scale driver declares about itself.
#[derive(Clone, Debug, PartialEq, Eq)]
pub struct ScaleCapabilities {
    pub driver_id: String,
    pub display_name: String,
    pub transport: ScaleTransport,
    pub realtime_weight: bool,
    pub stability_flag: bool,
    pub raw_diagnostics: bool,
    pub default_unit: String,
    pub connection: String,
}

/// A weight unit as the scale code keeps it: trimmed, in ASCII lower case,
/// and `kg` when nothing is left.
pub open spec fn unit_or_default(unit: Seq<char>) -> Seq<char> {
    let u = ascii_lower(trim(unit));
    if u.len() == 0 {
        "kg"@
    } else {
        u
    }
}

/// Normalizes a weight unit: trimmed, ASCII lower case, `kg` when empty.
pub fn normalize_unit(unit: &str) -> (r: String)
    ensures
        r@ == unit_or_default(unit@),
{
    let u = lower_trimmed(unit);
    if u.len() == 0 {
        to_string_lit("kg")
    } else {
        string_from_chars(&u)
    }
}

fn to_string_lit(s: &str) -> (r: String)
    ensures
        r@ == s@,
{
    crate::text::to_owned_string(s)
}

impl ScaleCapabilities {
    /// The capabilities of the serial scale driver on `port` at `baud`: live
    /// weight, a stability flag and raw diagnostics, reached at `port@baud`.
    pub fn serial(port: &str, baud: u32, default_unit: &str) -> (r: ScaleCapabilities)
        ensures
            r.driver_id@ == "serial-scale"@,
            r.display_name@ == "Serial Scale"@,
            r.transport == ScaleTransport::Serial,
            r.realtime_weight,
            r.stability_flag,
            r.raw_diagnostics,
            r.default_unit@ == unit_or_default(default_unit@),
            r.connection@ == trim(port@) + "@"@ + decimal(baud as nat),
    {
        let mut connection = trim_str(port);
        push_str(&mut connection, "@");
        push_decimal(&mut connection, baud as u64);
        ScaleCapabilities {
            driver_id: to_string_lit("serial-scale"),
            display_name: to_string_lit("Serial Scale"),
            transport: ScaleTransport::Serial,
            realtime_weight: true,
            stability_flag: true,
            raw_diagnostics: true,
            default_unit: normalize_unit(default_unit),
            connection,
        }
    }
}

/// A scale driver reports what it can do.
pub trait ScaleDriver {
    fn capabilities(&self) -> ScaleCapabilities;
}

} // verus!
