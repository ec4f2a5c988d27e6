//! Which device path each printer is configured on.
use vstd::prelude::*;
use crate::print::printer::PrinterKind;
use crate::text::{trim, trim_str};

verus! {

/// A configured device path: trimmed, and absent when blank.
pub open spec fn device_path_of(value: Option<String>) -> Option<Seq<char>> {
    match value {
        Some(v) => if trim(v@).len() == 0 {
            None
        } else {
            Some(trim(v@))
        },
        None => None,
    }
}

/// Normalizes a configured device path: trimmed, `None` when blank.
pub fn normalize_device_path(value: Option<String>) -> (r: Option<String>)
    ensures
        r is None <==> device_path_of(value) is None,
        r matches Some(p) ==> device_path_of(value) == Some(p@),
{
    match value {
        Some(v) => {
            let t = trim_str(v.as_str());
            if t.as_str().is_empty() {
                None
            } else {
                Some(t)
            }
        },
        None => None,
    }
}

/// The device paths of the printers the station drives.
#[derive(Clone, Debug, Default)]
pub struct PrinterDeviceConfig {
    pub zebra_device: Option<String>,
    pub godex_device: Option<String>,
}

impl PrinterDeviceConfig {
    /// The configuration with each path normalized.
    pub fn new(zebra_device: Option<String>, godex_device: Option<String>) -> (r: PrinterDeviceConfig)
        ensures
            r.zebra_device is None <==> device_path_of(zebra_device) is None,
            r.zebra_device matches Some(p) ==> device_path_of(zebra_device) == Some(p@),
            r.godex_device is None <==> device_path_of(godex_device) is None,
            r.godex_device matches Some(p) ==> device_path_of(godex_device) == Some(p@),
    {
        PrinterDeviceConfig {
            zebra_device: normalize_device_path(zebra_device),
            godex_device: normalize_device_path(godex_device),
        }
    }

    /// The device path of the active printer, if configured.
    pub fn device_path(&self, active_printer: PrinterKind) -> (r: Option<String>)
        ensures
            r == (match active_printer {
                PrinterKind::Zebra => self.zebra_device,
                PrinterKind::Godex => self.godex_device,
            }),
    {
        match active_printer {
            PrinterKind::Zebra => self.zebra_device.clone(),
            PrinterKind::Godex => self.godex_device.clone(),
        }
    }
}

} // verus!
