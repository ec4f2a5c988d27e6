//! The printer models that the station drives.
use vstd::prelude::*;
use crate::text::{ascii_lower, eq_chars, lower_trimmed, trim};

verus! {

/// A printer model with its own command language.
#[derive(Clone, Copy, Debug, PartialEq, Eq, Structural)]
pub enum PrinterKind {
    Zebra,
    Godex,
}

impl PrinterKind {
    pub open spec fn name(self) -> Seq<char> {
        match self {
            PrinterKind::Zebra => "zebra"@,
            PrinterKind::Godex => "godex"@,
        }
    }

    /// The printer's driver id.
    pub fn as_str(self) -> (r: &'static str)
        ensures
            r@ == self.name(),
    {
        match self {
            PrinterKind::Zebra => "zebra",
            PrinterKind::Godex => "godex",
        }
    }

    /// The printer that a selection names: `zebra` or `zpl` for the Zebra,
    /// `godex` for the GoDEX (trimmed, any ASCII case); `None` otherwise.
    pub open spec fn named(name: Seq<char>) -> Option<PrinterKind> {
        let n = ascii_lower(trim(name));
        if n == "zebra"@ || n == "zpl"@ {
            Some(PrinterKind::Zebra)
        } else if n == "godex"@ {
            Some(PrinterKind::Godex)
        } else {
            None
        }
    }

    /// Reads a printer name from a selection.
    pub fn from_name(name: &str) -> (r: Option<PrinterKind>)
        ensures
            r == PrinterKind::named(name@),
    {
        let n = lower_trimmed(name);
        if eq_chars(&n, "zebra") || eq_chars(&n, "zpl") {
            Some(PrinterKind::Zebra)
        } else if eq_chars(&n, "godex") {
            Some(PrinterKind::Godex)
        } else {
            None
        }
    }
}

} // verus!
