use rp_scale::scale::{parse_weight, stable_text};

fn weight(text: &str) -> f64 {
    text.parse::<f64>().expect("weight text reads as f64")
}

#[test]
fn parses_negative_formats_like_go() {
    let cases = [
        ("ST,-13kg", -13.0),
        ("ST, - 13 kg", -13.0),
        ("ST, 13 kg-", -13.0),
        ("ST, \u{2212}13.5kg", -13.5),
        ("ST, N13.25kg", -13.25),
    ];

    for (raw, expected) in cases {
        let parsed = parse_weight(raw, "kg").expect("parse weight");
        assert_eq!(weight(&parsed.weight), expected, "raw={raw}");
        assert_eq!(parsed.unit, "kg");
    }
}

#[test]
fn prefers_negative_when_frame_contains_both_signs_like_go() {
    let parsed = parse_weight("x=13kg net=-13kg ST", "kg").expect("parse weight");
    assert_eq!(weight(&parsed.weight), -13.0);
    assert_eq!(parsed.unit, "kg");
    assert_eq!(parsed.stable, Some(true));
}

#[test]
fn parses_positive_format_like_go() {
    let parsed = parse_weight("ST, +13.40kg", "kg").expect("parse weight");
    assert_eq!(weight(&parsed.weight), 13.4);
    assert_eq!(parsed.unit, "kg");
    assert_eq!(parsed.stable, Some(true));
}

#[test]
fn unstable_marker_wins_over_stable_marker_like_go() {
    let parsed = parse_weight("ST US 10kg", "kg").expect("parse weight");
    assert_eq!(parsed.stable, Some(false));
    assert_eq!(stable_text(parsed.stable), "unstable");
}

#[test]
fn chooses_later_candidate_on_equal_score_like_go() {
    let parsed = parse_weight("first 12 second 13", "kg").expect("parse weight");
    assert_eq!(weight(&parsed.weight), 13.0);
}

#[test]
fn rejects_out_of_range_values_like_go() {
    assert!(parse_weight("1000001kg", "kg").is_none());
    assert!(parse_weight("-1000001kg", "kg").is_none());
}

#[test]
fn weight_text_keeps_the_frame_digits() {
    let parsed = parse_weight("ST, +13.40kg", "kg").expect("parse weight");
    assert_eq!(parsed.weight, "+13.40");
    let parsed = parse_weight("  7,5 LB ", "kg").expect("parse weight");
    assert_eq!(parsed.weight, "7.5");
    assert_eq!(parsed.unit, "lb");
    assert_eq!(parsed.stable, None);
    assert_eq!(stable_text(parsed.stable), "unknown");
}

#[test]
fn unit_falls_back_to_default_unit() {
    let parsed = parse_weight("12", " G ").expect("parse weight");
    assert_eq!(parsed.unit, "g");
    let parsed = parse_weight("12 oz 15", "kg").expect("parse weight");
    assert_eq!(weight(&parsed.weight), 12.0);
    assert_eq!(parsed.unit, "oz");
}

#[test]
fn limit_is_inclusive_as_f64_reads_it() {
    assert_eq!(weight(&parse_weight("1000000kg", "kg").unwrap().weight), 1000000.0);
    assert_eq!(weight(&parse_weight("-1000000.0kg", "kg").unwrap().weight), -1000000.0);
    assert!(parse_weight("1000000.0000000001kg", "kg").is_none());
    assert_eq!(
        weight(&parse_weight("1000000.00000000005kg", "kg").unwrap().weight),
        1000000.0
    );
}

#[test]
fn frames_without_a_number_give_nothing() {
    assert!(parse_weight("ST US", "kg").is_none());
    assert!(parse_weight("", "kg").is_none());
    assert_eq!(stable_text(Some(true)), "stable");
}
