use rp_scale::print::mode::PrintMode;
use rp_scale::print::printer::PrinterKind;
use rp_scale::print::selection::{PrintSelection, QuantitySource};
use rp_scale::print_core::{
    CorePrintJob, CorePrintPlan, CorePrintPlanError, Kilograms, PreparePrintJobError, plan_core_print,
    validate_core_print_job,
};
use rp_scale::scale::Reading;

fn kg(value: f64) -> Kilograms {
    Kilograms { bits: value.to_bits() }
}

fn job(printer: Option<PrinterKind>, mode: PrintMode, epc: &str) -> CorePrintJob {
    CorePrintJob {
        epc: epc.to_string(),
        item_code: "ITEM-1".to_string(),
        item_name: "Green Tea".to_string(),
        warehouse: "Stores - A".to_string(),
        unit: "kg".to_string(),
        net_qty: kg(1.25),
        gross_qty: kg(1.25),
        tare: false,
        tare_kg: kg(0.0),
        printer,
        mode,
    }
}

#[test]
fn plans_zebra_rfid_job() {
    let plan = validate_core_print_job(job(Some(PrinterKind::Zebra), PrintMode::Rfid, "epc-1")).unwrap();

    assert_eq!(plan.printer, PrinterKind::Zebra);
    assert_eq!(plan.job.mode, PrintMode::Rfid);
    assert!(plan.capabilities.rfid_epc_write);
}

#[test]
fn job_without_printer_goes_to_zebra() {
    let plan = validate_core_print_job(job(None, PrintMode::LabelOnly, "epc-1")).unwrap();
    assert_eq!(plan.printer, PrinterKind::Zebra);
}

#[test]
fn plans_godex_label_only() {
    let plan =
        validate_core_print_job(job(Some(PrinterKind::Godex), PrintMode::LabelOnly, "epc-1")).unwrap();

    assert_eq!(plan.printer, PrinterKind::Godex);
    assert!(plan.capabilities.thermal_label);
    assert!(!plan.capabilities.rfid_epc_write);
}

#[test]
fn rejects_godex_rfid() {
    let err = validate_core_print_job(job(Some(PrinterKind::Godex), PrintMode::Rfid, "epc-1")).unwrap_err();

    assert_eq!(
        err,
        CorePrintPlanError::UnsupportedMode { printer: PrinterKind::Godex, mode: PrintMode::Rfid }
    );
}

#[test]
fn unsupported_mode_is_reported_before_missing_fields() {
    let err = validate_core_print_job(job(Some(PrinterKind::Godex), PrintMode::Rfid, " ")).unwrap_err();
    assert!(matches!(err, CorePrintPlanError::UnsupportedMode { .. }));
}

#[test]
fn rejects_missing_required_epc() {
    let err = validate_core_print_job(job(Some(PrinterKind::Zebra), PrintMode::Rfid, " ")).unwrap_err();

    assert_eq!(
        err,
        CorePrintPlanError::MissingRequiredFields { printer: PrinterKind::Zebra, fields: vec!["epc"] }
    );
}

#[test]
fn reports_every_missing_field_in_driver_order() {
    let mut j = job(Some(PrinterKind::Zebra), PrintMode::LabelOnly, "");
    j.item_name = "\t".to_string();
    j.gross_qty = kg(-0.0);
    let err = validate_core_print_job(j).unwrap_err();

    assert_eq!(
        err,
        CorePrintPlanError::MissingRequiredFields {
            printer: PrinterKind::Zebra,
            fields: vec!["epc", "item_name", "weight"],
        }
    );
}

#[test]
fn builds_job_from_selection() {
    let selection = PrintSelection {
        item_code: "ITEM-1".to_string(),
        item_name: "Green Tea".to_string(),
        warehouse: "Stores - A".to_string(),
        print_mode: PrintMode::Rfid,
        printer: "zpl".to_string(),
        quantity_source: QuantitySource::Scale,
        manual_qty_kg: kg(0.0),
        tare_enabled: false,
        tare_kg: kg(0.0),
    };
    let j = CorePrintJob::from_selection(" abc123 ", kg(2.5), kg(2.5), "", selection);

    assert_eq!(j.epc, "ABC123");
    assert_eq!(j.unit, "kg");
    assert_eq!(j.printer, Some(PrinterKind::Zebra));
    assert_eq!(j.item_code, "ITEM-1");
    assert!(!j.tare);
    assert!(validate_core_print_job(j).is_ok());
}

fn selection(printer: &str, mode: PrintMode) -> PrintSelection {
    PrintSelection {
        item_code: "ITEM-1".to_string(),
        item_name: "Green Tea".to_string(),
        warehouse: "Stores - A".to_string(),
        print_mode: mode,
        printer: printer.to_string(),
        quantity_source: QuantitySource::Scale,
        manual_qty_kg: kg(0.0),
        tare_enabled: false,
        tare_kg: kg(0.0),
    }
}

fn reading(weight: f64) -> Reading {
    Reading::serial("/dev/ttyUSB0", 9600, "kg").with_weight(kg(weight), Some(true), "raw")
}

fn plan(reading: &Reading, selection: PrintSelection, epc: &str) -> Result<CorePrintPlan, CorePrintPlanError> {
    let gross = reading.weight.map(|w| f64::from_bits(w.bits)).unwrap_or(0.0);
    let tared = kg((gross - f64::from_bits(selection.tare_kg.bits)).max(0.0));
    plan_core_print(reading, selection, epc, tared)
}

fn three_decimals(q: Kilograms) -> String {
    format!("{:.3}", f64::from_bits(q.bits))
}

#[test]
fn plans_zebra_rfid_without_building_hardware_command() {
    let plan = plan(&reading(1.25), selection("zebra", PrintMode::Rfid), "epc-1").unwrap();

    assert_eq!(plan.printer, PrinterKind::Zebra);
    assert_eq!(plan.job.mode, PrintMode::Rfid);
    assert!(plan.capabilities.rfid_epc_write);
}

#[test]
fn plans_godex_label_only_when_capability_allows_it() {
    let plan = plan(&reading(1.25), selection("godex", PrintMode::LabelOnly), "epc-1").unwrap();

    assert_eq!(plan.printer, PrinterKind::Godex);
    assert_eq!(plan.job.mode, PrintMode::LabelOnly);
    assert!(plan.capabilities.thermal_label);
    assert!(!plan.capabilities.rfid_epc_write);
}

#[test]
fn rejects_godex_rfid_in_core_before_driver_execution() {
    let err = plan(&reading(1.25), selection("godex", PrintMode::Rfid), "epc-1").unwrap_err();

    assert_eq!(
        err,
        CorePrintPlanError::UnsupportedMode { printer: PrinterKind::Godex, mode: PrintMode::Rfid }
    );
    assert_eq!(err.describe(&three_decimals), "godex does not support rfid");
}

#[test]
fn rejects_missing_required_epc_from_capability_contract() {
    let err = plan(&reading(1.25), selection("zebra", PrintMode::Rfid), " ").unwrap_err();

    assert_eq!(
        err,
        CorePrintPlanError::MissingRequiredFields { printer: PrinterKind::Zebra, fields: vec!["epc"] }
    );
}

#[test]
fn missing_fields_message_lists_them_in_order() {
    let err = CorePrintPlanError::MissingRequiredFields {
        printer: PrinterKind::Zebra,
        fields: vec!["epc", "item_name", "weight"],
    };
    assert_eq!(
        err.describe(&three_decimals),
        "zebra print job missing required fields: epc, item_name, weight"
    );
}

#[test]
fn preparation_errors_pass_through_the_plan() {
    let err = plan(&reading(0.05), selection("zebra", PrintMode::Rfid), "epc-1").unwrap_err();
    assert_eq!(err, CorePrintPlanError::PrepareJob(PreparePrintJobError::GrossQtyTooSmall { gross_qty: kg(0.05) }));
    assert_eq!(err.describe(&three_decimals), "QTY juda kichik: 0.050 kg | min 0.100 kg");
}

#[test]
fn unknown_printer_name_plans_for_zebra() {
    let plan = plan(&reading(1.25), selection("brother", PrintMode::Rfid), "epc-1").unwrap();
    assert_eq!(plan.printer, PrinterKind::Zebra);
    assert_eq!(plan.job.printer, None);
}
