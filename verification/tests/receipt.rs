use rp_scale::print::mode::PrintMode;
use rp_scale::print::printer::PrinterKind;
use rp_scale::print::selection::{PrintSelection, QuantitySource};
use rp_scale::print_core::{Kilograms, MIN_BATCH_QTY_BITS, PreparePrintJobError, prepare_print_job};
use rp_scale::scale::Reading;

fn kg(value: f64) -> Kilograms {
    Kilograms { bits: value.to_bits() }
}

fn value(q: Kilograms) -> f64 {
    f64::from_bits(q.bits)
}

fn three_decimals(q: Kilograms) -> String {
    format!("{:.3}", value(q))
}

fn selection() -> PrintSelection {
    PrintSelection {
        item_code: " ITEM-1 ".to_string(),
        item_name: " Green Tea ".to_string(),
        warehouse: " Stores - A ".to_string(),
        print_mode: PrintMode::Rfid,
        printer: "zpl".to_string(),
        quantity_source: QuantitySource::Scale,
        manual_qty_kg: kg(0.0),
        tare_enabled: false,
        tare_kg: kg(0.0),
    }
}

fn reading(weight: f64, unit: &str) -> Reading {
    Reading::serial("/dev/ttyUSB0", 9600, unit).with_weight(kg(weight), Some(true), "raw")
}

fn tared(reading: &Reading, selection: &PrintSelection) -> Kilograms {
    let gross = reading.weight.map(value).unwrap_or(0.0);
    kg((gross - value(selection.tare_kg)).max(0.0))
}

fn prepare(reading: &Reading, selection: PrintSelection, epc: &str) -> Result<rp_scale::print_core::CorePrintJob, PreparePrintJobError> {
    let t = tared(reading, &selection);
    prepare_print_job(reading, selection, epc, t)
}

#[test]
fn prepares_print_job_from_stable_scale_reading() {
    let job = prepare(&reading(2.5, "kg"), selection(), " abc123 ").unwrap();

    assert_eq!(job.epc, "ABC123");
    assert_eq!(value(job.gross_qty), 2.5);
    assert_eq!(value(job.net_qty), 2.5);
    assert_eq!(job.unit, "kg");
    assert_eq!(job.item_code, "ITEM-1");
    assert_eq!(job.item_name, "Green Tea");
    assert_eq!(job.printer, Some(PrinterKind::Zebra));
    assert!(!job.tare);
}

#[test]
fn applies_tare_before_building_job_like_gscale() {
    let mut input = selection();
    input.tare_enabled = true;
    input.tare_kg = kg(0.78);

    let job = prepare(&reading(2.5, "kg"), input, "EPC-1").unwrap();

    assert_eq!(value(job.gross_qty), 2.5);
    assert_eq!(value(job.net_qty), 1.72);
    assert!(job.tare);
    assert_eq!(value(job.tare_kg), 0.78);
}

#[test]
fn rejects_gross_qty_below_min_like_gscale() {
    let err = prepare(&reading(0.099, "kg"), selection(), "EPC-1").unwrap_err();

    assert_eq!(err, PreparePrintJobError::GrossQtyTooSmall { gross_qty: kg(0.099) });
    assert_eq!(err.describe(&three_decimals), "QTY juda kichik: 0.099 kg | min 0.100 kg");
}

#[test]
fn rejects_net_qty_below_min_like_gscale() {
    let mut input = selection();
    input.tare_enabled = true;
    input.tare_kg = kg(0.45);

    let err = prepare(&reading(0.5, "kg"), input, "EPC-1").unwrap_err();

    assert_eq!(
        err,
        PreparePrintJobError::NetQtyTooSmall {
            gross_qty: kg(0.5),
            tare_kg: kg(0.45),
            net_qty: kg(0.04999999999999999)
        }
    );
    assert_eq!(
        err.describe(&three_decimals),
        "NETTO juda kichik: brutto 0.500 kg - babina 0.450 kg = 0.050 kg | min 0.100 kg"
    );
}

#[test]
fn clamps_negative_net_qty_to_zero_like_gscale_selection() {
    let mut input = selection();
    input.tare_enabled = true;
    input.tare_kg = kg(0.8);

    let err = prepare(&reading(0.5, "kg"), input, "EPC-1").unwrap_err();

    assert_eq!(
        err,
        PreparePrintJobError::NetQtyTooSmall {
            gross_qty: kg(0.5),
            tare_kg: kg(0.8),
            net_qty: kg(0.0)
        }
    );
}

#[test]
fn falls_back_to_kg_when_scale_unit_is_empty() {
    let job = prepare(&reading(1.25, ""), selection(), "EPC-1").unwrap();

    assert_eq!(job.unit, "kg");
}

#[test]
fn rejects_missing_weight_and_required_selection_fields() {
    let missing = Reading::serial("/dev/ttyUSB0", 9600, "kg");
    assert_eq!(prepare(&missing, selection(), "EPC-1").unwrap_err(), PreparePrintJobError::MissingWeight);

    let mut no_item = selection();
    no_item.item_code = " ".to_string();
    assert_eq!(
        prepare(&reading(1.0, "kg"), no_item, "EPC-1").unwrap_err(),
        PreparePrintJobError::MissingItemCode
    );

    let mut no_warehouse = selection();
    no_warehouse.warehouse = " ".to_string();
    assert_eq!(
        prepare(&reading(1.0, "kg"), no_warehouse, "EPC-1").unwrap_err(),
        PreparePrintJobError::MissingWarehouse
    );
}

#[test]
fn item_code_is_checked_before_warehouse_and_weight() {
    let missing = Reading::serial("/dev/ttyUSB0", 9600, "kg");
    let mut input = selection();
    input.item_code = String::new();
    input.warehouse = String::new();
    assert_eq!(prepare(&missing, input, "EPC-1").unwrap_err(), PreparePrintJobError::MissingItemCode);
}

#[test]
fn batch_minimum_is_inclusive() {
    assert_eq!(f64::from_bits(MIN_BATCH_QTY_BITS), 0.100);
    let job = prepare(&reading(0.1, "kg"), selection(), "EPC-1").unwrap();
    assert_eq!(value(job.gross_qty), 0.1);
}

#[test]
fn negative_and_nan_weights() {
    assert_eq!(
        prepare(&reading(-2.0, "kg"), selection(), "EPC-1").unwrap_err(),
        PreparePrintJobError::GrossQtyTooSmall { gross_qty: kg(-2.0) }
    );
    assert_eq!(
        prepare(&reading(-0.0, "kg"), selection(), "EPC-1").unwrap_err(),
        PreparePrintJobError::GrossQtyTooSmall { gross_qty: kg(-0.0) }
    );
    // A NaN compares below nothing, so it passes both minimum checks.
    assert!(prepare(&reading(f64::NAN, "kg"), selection(), "EPC-1").is_ok());
}

#[test]
fn blank_item_name_takes_the_item_code() {
    let mut input = selection();
    input.item_name = "  ".to_string();
    let job = prepare(&reading(1.0, " KG "), input, "e").unwrap();
    assert_eq!(job.item_name, "ITEM-1");
    assert_eq!(job.unit, "kg");
    assert_eq!(job.warehouse, "Stores - A");
}

#[test]
fn fixed_messages_of_preparation_errors() {
    assert_eq!(PreparePrintJobError::MissingWeight.describe(&three_decimals), "scale weight bo'sh");
    assert_eq!(
        PreparePrintJobError::MissingItemCode.describe(&three_decimals),
        "material receipt item code bo'sh"
    );
    assert_eq!(
        PreparePrintJobError::MissingWarehouse.describe(&three_decimals),
        "material receipt warehouse bo'sh"
    );
}
