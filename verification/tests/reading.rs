use rp_scale::print_core::Kilograms;
use rp_scale::scale::{Reading, ScaleChunkDecoder, format_reading, parse_weight, pop_serial_frame};

fn kg(value: f64) -> Kilograms {
    Kilograms { bits: value.to_bits() }
}

fn three_decimals(q: Kilograms) -> String {
    format!("{:.3}", f64::from_bits(q.bits))
}

#[test]
fn formats_reading_with_weight() {
    let reading = Reading::serial(" /dev/ttyUSB0 ", 9600, "kg").with_weight(kg(1.25), Some(true), "ST,+1.250kg");

    assert_eq!(
        format_reading(&reading, &three_decimals),
        "source=serial port=/dev/ttyUSB0 baud=9600 weight=1.250 unit=kg stable=true raw=ST,+1.250kg error="
    );
}

#[test]
fn formats_reading_without_weight() {
    let reading = Reading::from_source(" wifi ", "scale.local", 0, "g").with_error("timeout");

    assert_eq!(
        format_reading(&reading, &three_decimals),
        "source=wifi port=scale.local baud=0 weight=- unit=g stable=unknown raw= error=timeout"
    );
}

#[test]
fn builders_keep_other_fields() {
    let reading = Reading::serial("/dev/ttyS0", 4800, "kg")
        .with_weight(kg(2.0), Some(false), "US 2kg")
        .with_raw("US 2.0kg")
        .with_error("late");

    assert_eq!(reading.source, "serial");
    assert_eq!(reading.baud, 4800);
    assert_eq!(reading.weight, Some(kg(2.0)));
    assert_eq!(reading.stable, Some(false));
    assert_eq!(reading.raw, "US 2.0kg");
    assert_eq!(reading.error, "late");
    assert!(format_reading(&reading, &three_decimals).contains("stable=false"));
}

struct LineDecoder {
    buffer: String,
}

impl ScaleChunkDecoder for LineDecoder {
    fn push_chunk(&mut self, chunk: &str) -> Vec<Reading> {
        self.buffer.push_str(chunk);
        let mut out = Vec::new();
        while let Some((frame, rest)) = pop_serial_frame(&self.buffer) {
            self.buffer = rest;
            if let Some(parsed) = parse_weight(&frame, "kg") {
                let weight: f64 = parsed.weight.parse().unwrap();
                out.push(Reading::serial("/dev/ttyUSB0", 9600, &parsed.unit).with_weight(kg(weight), parsed.stable, &frame));
            }
        }
        out
    }
}

#[test]
fn chunk_decoder_yields_one_reading_per_complete_frame() {
    let mut decoder = LineDecoder { buffer: String::new() };

    assert!(decoder.push_chunk("ST,+1.2").is_empty());
    let readings = decoder.push_chunk("5kg\r\nUS,-0.5kg\r");

    assert_eq!(readings.len(), 2);
    assert_eq!(readings[0].weight, Some(kg(1.25)));
    assert_eq!(readings[0].stable, Some(true));
    assert_eq!(readings[1].weight, Some(kg(-0.5)));
    assert_eq!(readings[1].stable, Some(false));
    assert_eq!(readings[1].raw, "US,-0.5kg");
}

#[test]
fn readings_compare_field_by_field() {
    let reading = Reading::serial("/dev/ttyUSB0", 9600, "kg").with_weight(kg(1.25), Some(true), "raw");
    let copy = reading.clone();
    assert_eq!(copy, reading);

    let mut zero = reading.clone();
    zero.weight = Some(kg(0.0));
    let mut negative_zero = zero.clone();
    negative_zero.weight = Some(kg(-0.0));
    assert_eq!(zero, negative_zero);

    let mut other = reading.clone();
    other.unit = "g".to_string();
    assert_ne!(other, reading);
}
