use rp_scale::print_core::Kilograms;
use rp_scale::scale::{Reading, ScaleCoreState};

#[test]
fn core_keeps_last_unit_when_driver_omits_unit_like_go() {
    let mut core = ScaleCoreState::new("kg");
    core.apply_reading(Reading::from_source("wifi", "scale.local", 0, "g"));

    let applied = core.apply_reading(Reading::from_source("wifi", "scale.local", 0, ""));

    assert_eq!(applied.unit, "g");
}

#[test]
fn core_defaults_unit_to_kg() {
    let core = ScaleCoreState::new("");

    assert_eq!(core.last().unit, "kg");
}

#[test]
fn readings_carry_what_they_are_built_with() {
    let reading = Reading::serial(" /dev/ttyUSB0 ", 9600, "kg")
        .with_weight(Kilograms { bits: 1.25f64.to_bits() }, Some(true), "1.250 kg ST")
        .with_error("late");

    assert_eq!(reading.source, "serial");
    assert_eq!(reading.port, "/dev/ttyUSB0");
    assert_eq!(reading.baud, 9600);
    assert_eq!(f64::from_bits(reading.weight.unwrap().bits), 1.25);
    assert_eq!(reading.stable, Some(true));
    assert_eq!(reading.raw, "1.250 kg ST");
    assert_eq!(reading.error, "late");
    assert_eq!(reading.with_raw("next").raw, "next");
}

#[test]
fn core_starts_from_normalized_unit() {
    let core = ScaleCoreState::new(" LB ");
    assert_eq!(core.last().unit, "lb");
    assert_eq!(core.last().source, "core");
    assert!(core.last().weight.is_none());
}
