use rp_scale::print::capabilities::{capabilities_for, manifest_for};
use rp_scale::print::mode::PrintMode;
use rp_scale::print::printer::PrinterKind;

#[test]
fn exposes_zebra_capabilities() {
    let caps = capabilities_for(PrinterKind::Zebra);

    assert!(caps.supports_mode(PrintMode::Rfid));
    assert!(caps.supports_mode(PrintMode::LabelOnly));
    assert!(caps.rfid_epc_write);
    assert!(caps.verify_after_print);
}

#[test]
fn exposes_godex_capabilities_and_blocks_rfid() {
    let caps = capabilities_for(PrinterKind::Godex);

    assert!(!caps.supports_mode(PrintMode::Rfid));
    assert!(caps.supports_mode(PrintMode::LabelOnly));
    assert_eq!(caps.unsupported_modes, &["rfid_epc_write"]);
    assert!(caps.qr);
    assert!(caps.barcode);
}

#[test]
fn exports_mobile_safe_manifest_without_driver_details() {
    let manifest = manifest_for(PrinterKind::Godex);

    assert_eq!(manifest.id, "godex");
    assert_eq!(manifest.name, "GoDEX G500");
    assert!(manifest.capabilities.thermal_label);
    assert!(!manifest.capabilities.rfid_epc_write);
    assert_eq!(manifest.required_fields, &["epc", "item_name", "weight"]);
    assert_eq!(manifest.unsupported_modes, &["rfid_epc_write"]);
}

#[test]
fn zebra_manifest_lists_no_unsupported_modes() {
    let manifest = manifest_for(PrinterKind::Zebra);

    assert_eq!(manifest.id, "zebra");
    assert_eq!(manifest.name, "Zebra RFID");
    assert!(manifest.capabilities.rfid_epc_write);
    assert!(!manifest.capabilities.qr);
    assert!(manifest.unsupported_modes.is_empty());
    assert_eq!(manifest.required_fields, &["epc", "item_name", "weight"]);
}

#[test]
fn flags_copy_every_capability() {
    let caps = capabilities_for(PrinterKind::Godex);
    let flags = caps.flags();

    assert_eq!(flags.thermal_label, caps.thermal_label);
    assert_eq!(flags.rfid_epc_write, caps.rfid_epc_write);
    assert_eq!(flags.barcode, caps.barcode);
    assert_eq!(flags.qr, caps.qr);
    assert_eq!(flags.verify_after_print, caps.verify_after_print);
    assert_eq!(caps.manifest().capabilities, flags);
}

#[test]
fn mode_and_printer_names() {
    assert_eq!(PrintMode::Rfid.as_str(), "rfid");
    assert_eq!(PrintMode::LabelOnly.as_str(), "label");
    assert_eq!(PrinterKind::Zebra.as_str(), "zebra");
    assert_eq!(PrinterKind::Godex.as_str(), "godex");
    assert_eq!(PrinterKind::from_name(" ZPL "), Some(PrinterKind::Zebra));
    assert_eq!(PrinterKind::from_name("GoDEX"), Some(PrinterKind::Godex));
    assert_eq!(PrinterKind::from_name("brother"), None);
}
