use rp_scale::print::mode::PrintMode;
use rp_scale::print::selection::{PrintSelection, QuantitySource};
use rp_scale::print_core::Kilograms;

fn kg(value: f64) -> Kilograms {
    Kilograms { bits: value.to_bits() }
}

fn value(q: Kilograms) -> f64 {
    f64::from_bits(q.bits)
}

fn selection() -> PrintSelection {
    PrintSelection {
        item_code: " ITEM-1 ".to_string(),
        item_name: " ".to_string(),
        warehouse: " Stores - A ".to_string(),
        print_mode: PrintMode::Rfid,
        printer: " GoDEX ".to_string(),
        quantity_source: QuantitySource::Scale,
        manual_qty_kg: kg(7.0),
        tare_enabled: true,
        tare_kg: kg(0.5),
    }
}

#[test]
fn normalizes_selection_like_gscale_workflow() {
    let normalized = selection().normalized();

    assert_eq!(normalized.item_code, "ITEM-1");
    assert_eq!(normalized.item_name, "ITEM-1");
    assert_eq!(normalized.warehouse, "Stores - A");
    assert_eq!(normalized.printer, "godex");
    assert_eq!(value(normalized.manual_qty_kg), 0.0);
    assert!(normalized.tare_enabled);
    assert_eq!(value(normalized.tare_kg), 0.5);
}

#[test]
fn normalizes_quantity_source_like_gscale_workflow() {
    assert_eq!(QuantitySource::normalize("manual_kg"), QuantitySource::Manual);
    assert_eq!(QuantitySource::normalize("manual-kg"), QuantitySource::Manual);
    assert_eq!(QuantitySource::normalize("kg"), QuantitySource::Manual);
    assert_eq!(QuantitySource::normalize("scale"), QuantitySource::Scale);
    assert_eq!(QuantitySource::normalize("unknown"), QuantitySource::Scale);
}

#[test]
fn computes_net_qty_like_gscale_workflow() {
    let normalized = selection().normalized();
    let net = |gross: f64| normalized.net_qty(kg(gross), kg((gross - value(normalized.tare_kg)).max(0.0)));

    assert_eq!(value(net(2.5)), 2.0);
    assert_eq!(value(net(0.3)), 0.0);
}

#[test]
fn net_qty_is_the_gross_without_tare() {
    let mut input = selection();
    input.tare_enabled = false;
    let normalized = input.normalized();

    assert_eq!(value(normalized.net_qty(kg(2.5), kg(1.0))), 2.5);
}

#[test]
fn disables_invalid_tare_and_manual_qty_like_gscale_workflow() {
    let mut input = selection();
    input.quantity_source = QuantitySource::Manual;
    input.manual_qty_kg = kg(-1.0);
    input.tare_kg = kg(0.0);

    let normalized = input.normalized();

    assert_eq!(value(normalized.manual_qty_kg), 0.0);
    assert!(!normalized.tare_enabled);
    assert_eq!(value(normalized.tare_kg), 0.0);
}

#[test]
fn keeps_positive_manual_quantity_for_manual_source() {
    let mut input = selection();
    input.quantity_source = QuantitySource::Manual;
    input.manual_qty_kg = kg(2.25);

    let normalized = input.normalized();

    assert!(normalized.uses_manual_qty());
    assert_eq!(value(normalized.manual_qty_kg), 2.25);
}

#[test]
fn negative_zero_and_nan_quantities() {
    let mut input = selection();
    input.quantity_source = QuantitySource::Manual;
    input.manual_qty_kg = kg(-0.0);
    input.tare_kg = kg(f64::NAN);

    let normalized = input.normalized();

    assert_eq!(normalized.manual_qty_kg.bits, 0);
    assert!(normalized.tare_enabled);
    assert!(value(normalized.tare_kg).is_nan());
    assert!(kg(-0.0).is_at_most_zero());
    assert!(!kg(f64::NAN).is_at_most_zero());
    assert!(!kg(0.1).is_at_most_zero());
}

#[test]
fn quantity_source_names_round_trip() {
    assert_eq!(QuantitySource::Scale.as_str(), "scale");
    assert_eq!(QuantitySource::Manual.as_str(), "manual");
    assert_eq!(QuantitySource::normalize(QuantitySource::Manual.as_str()), QuantitySource::Manual);
    assert_eq!(QuantitySource::normalize(QuantitySource::Scale.as_str()), QuantitySource::Scale);
    assert_eq!(QuantitySource::normalize(" MANUAL "), QuantitySource::Manual);
}

#[test]
fn quantities_compare_as_their_floats() {
    assert_eq!(kg(0.0), kg(-0.0));
    assert_eq!(kg(2.5), kg(2.5));
    assert_ne!(kg(2.5), kg(2.25));
    assert_ne!(kg(f64::NAN), kg(f64::NAN));
    assert_ne!(kg(f64::NAN), kg(0.0));

    let mut a = selection();
    let mut b = selection();
    a.tare_kg = kg(0.0);
    b.tare_kg = kg(-0.0);
    assert_eq!(a, b);
    a.tare_kg = kg(f64::NAN);
    assert_ne!(a.clone(), a);
}
