//! What each printer driver can do, and the manifest the mobile app reads.
use vstd::prelude::*;
use super::mode::PrintMode;
use super::printer::PrinterKind;

verus! {

/// The typed capabilities that a printer driver declares.
#[derive(Clone, Debug, PartialEq)]
pub struct PrinterCapabilities {
    pub id: &'static str,
    pub name: &'static str,
    pub thermal_label: bool,
    pub rfid_epc_write: bool,
    pub barcode: bool,
    pub qr: bool,
    pub verify_after_print: bool,
    pub required_fields: &'static [&'static str],
    pub unsupported_modes: &'static [&'static str],
}

/// The capability flags that the mobile app shows.
#[derive(Clone, Debug, PartialEq, Eq, Structural)]
pub struct PrinterCapabilityFlags {
    pub thermal_label: bool,
    pub rfid_epc_write: bool,
    pub barcode: bool,
    pub qr: bool,
    pub verify_after_print: bool,
}

/// The manifest of the active printer, as the mobile discovery API exposes it.
#[derive(Clone, Debug, PartialEq)]
pub struct ActivePrinterManifest {
    pub id: &'static str,
    pub name: &'static str,
    pub capabilities: PrinterCapabilityFlags,
    pub required_fields: &'static [&'static str],
    pub unsupported_modes: &'static [&'static str],
}

/// The texts of a list of names.
pub open spec fn names(s: Seq<&'static str>) -> Seq<Seq<char>> {
    s.map_values(|t: &'static str| t@)
}

/// A driver's capabilities as plain values.
pub struct CapabilitiesModel {
    pub id: Seq<char>,
    pub name: Seq<char>,
    pub flags: PrinterCapabilityFlags,
    pub required_fields: Seq<Seq<char>>,
    pub unsupported_modes: Seq<Seq<char>>,
}

impl PrinterCapabilities {
    pub open spec fn spec_flags(self) -> PrinterCapabilityFlags {
        PrinterCapabilityFlags {
            thermal_label: self.thermal_label,
            rfid_epc_write: self.rfid_epc_write,
            barcode: self.barcode,
            qr: self.qr,
            verify_after_print: self.verify_after_print,
        }
    }

    pub open spec fn model(self) -> CapabilitiesModel {
        CapabilitiesModel {
            id: self.id@,
            name: self.name@,
            flags: self.spec_flags(),
            required_fields: names(self.required_fields@),
            unsupported_modes: names(self.unsupported_modes@),
        }
    }

    /// Whether a driver with these flags can perform `mode`.
    pub open spec fn allows(self, mode: PrintMode) -> bool {
        match mode {
            PrintMode::Rfid => self.rfid_epc_write,
            PrintMode::LabelOnly => self.thermal_label,
        }
    }

    /// Whether the driver can perform `mode`: RFID needs EPC writing, a label
    /// needs thermal label printing.
    pub fn supports_mode(&self, mode: PrintMode) -> (r: bool)
        ensures
            r == self.allows(mode),
    {
        match mode {
            PrintMode::Rfid => self.rfid_epc_write,
            PrintMode::LabelOnly => self.thermal_label,
        }
    }

    /// The capability flags alone.
    pub fn flags(&self) -> (r: PrinterCapabilityFlags)
        ensures
            r == self.spec_flags(),
    {
        PrinterCapabilityFlags {
            thermal_label: self.thermal_label,
            rfid_epc_write: self.rfid_epc_write,
            barcode: self.barcode,
            qr: self.qr,
            verify_after_print: self.verify_after_print,
        }
    }

    /// The manifest that the mobile app reads: id, name, flags, required
    /// fields and unsupported modes, without driver details.
    pub fn manifest(&self) -> (r: ActivePrinterManifest)
        ensures
            r.id == self.id,
            r.name == self.name,
            r.capabilities == self.spec_flags(),
            r.required_fields == self.required_fields,
            r.unsupported_modes == self.unsupported_modes,
    {
        ActivePrinterManifest {
            id: self.id,
            name: self.name,
            capabilities: self.flags(),
            required_fields: self.required_fields,
            unsupported_modes: self.unsupported_modes,
        }
    }
}

/// The Zebra RFID driver: labels, RFID EPC writing, barcodes and verification
/// after print; no QR code.
pub open spec fn zebra_model() -> CapabilitiesModel {
    CapabilitiesModel {
        id: "zebra"@,
        name: "Zebra RFID"@,
        flags: PrinterCapabilityFlags {
            thermal_label: true,
            rfid_epc_write: true,
            barcode: true,
            qr: false,
            verify_after_print: true,
        },
        required_fields: seq!["epc"@, "item_name"@, "weight"@],
        unsupported_modes: Seq::empty(),
    }
}

/// The GoDEX G500 driver: labels, barcodes and QR codes; no RFID EPC writing.
pub open spec fn godex_model() -> CapabilitiesModel {
    CapabilitiesModel {
        id: "godex"@,
        name: "GoDEX G500"@,
        flags: PrinterCapabilityFlags {
            thermal_label: true,
            rfid_epc_write: false,
            barcode: true,
            qr: true,
            verify_after_print: false,
        },
        required_fields: seq!["epc"@, "item_name"@, "weight"@],
        unsupported_modes: seq!["rfid_epc_write"@],
    }
}

pub open spec fn model_for(kind: PrinterKind) -> CapabilitiesModel {
    match kind {
        PrinterKind::Zebra => zebra_model(),
        PrinterKind::Godex => godex_model(),
    }
}

pub fn zebra_capabilities() -> (r: PrinterCapabilities)
    ensures
        r.model() == zebra_model(),
{
    let r = PrinterCapabilities {
        id: "zebra",
        name: "Zebra RFID",
        thermal_label: true,
        rfid_epc_write: true,
        barcode: true,
        qr: false,
        verify_after_print: true,
        required_fields: &["epc", "item_name", "weight"],
        unsupported_modes: &[],
    };
    assert(names(r.required_fields@) =~= seq!["epc"@, "item_name"@, "weight"@]);
    assert(names(r.unsupported_modes@) =~= Seq::<Seq<char>>::empty());
    r
}

pub fn godex_capabilities() -> (r: PrinterCapabilities)
    ensures
        r.model() == godex_model(),
{
    let r = PrinterCapabilities {
        id: "godex",
        name: "GoDEX G500",
        thermal_label: true,
        rfid_epc_write: false,
        barcode: true,
        qr: true,
        verify_after_print: false,
        required_fields: &["epc", "item_name", "weight"],
        unsupported_modes: &["rfid_epc_write"],
    };
    assert(names(r.required_fields@) =~= seq!["epc"@, "item_name"@, "weight"@]);
    assert(names(r.unsupported_modes@) =~= seq!["rfid_epc_write"@]);
    r
}

/// The capabilities of the driver for `kind`.
pub fn capabilities_for(kind: PrinterKind) -> (r: PrinterCapabilities)
    ensures
        r.model() == model_for(kind),
{
    match kind {
        PrinterKind::Zebra => zebra_capabilities(),
        PrinterKind::Godex => godex_capabilities(),
    }
}

/// The mobile manifest of the driver for `kind`.
pub fn manifest_for(kind: PrinterKind) -> (r: ActivePrinterManifest)
    ensures
        r.id@ == model_for(kind).id,
        r.name@ == model_for(kind).name,
        r.capabilities == model_for(kind).flags,
        names(r.required_fields@) == model_for(kind).required_fields,
        names(r.unsupported_modes@) == model_for(kind).unsupported_modes,
{
    capabilities_for(kind).manifest()
}

/// Every driver lists RFID EPC writing among its unsupported modes exactly
/// when it cannot write EPCs, so the manifest never contradicts the flags.
pub proof fn unsupported_modes_match_flags(kind: PrinterKind)
    ensures
        model_for(kind).unsupported_modes.contains("rfid_epc_write"@) <==> !model_for(
            kind,
        ).flags.rfid_epc_write,
{
    let m = model_for(kind);
    if kind == PrinterKind::Godex {
        assert(m.unsupported_modes[0] == "rfid_epc_write"@);
    }
}

/// Every driver prints thermal labels, so a label-only request is never
/// refused for its mode; RFID is refused exactly by drivers without EPC writing.
pub proof fn label_mode_always_supported(kind: PrinterKind)
    ensures
        model_for(kind).flags.thermal_label,
        model_for(kind).flags.rfid_epc_write <==> kind == PrinterKind::Zebra,
{
}

} // verus!
