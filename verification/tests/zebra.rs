use rp_scale::print::zebra::build_zebra_weight_block;

#[test]
fn builds_single_weight_line_without_tare() {
    let block = build_zebra_weight_block("1.2 kg", "");

    assert!(block.zpl.contains("^FDVAZNI: 1.2 kg^FS"));
    assert_eq!(block.epc_y, 184);
    assert_eq!(block.barcode_y, 236);
}

#[test]
fn builds_netto_and_brutto_lines_with_tare() {
    let block = build_zebra_weight_block("1.7 kg", "2.5 kg");

    assert!(block.zpl.contains("^FDNETTO: 1.7 kg^FS"));
    assert!(block.zpl.contains("^FDBRUTTO: 2.5 kg^FS"));
    assert_eq!(block.epc_y, 220);
    assert_eq!(block.barcode_y, 272);
}

#[test]
fn blank_gross_weight_counts_as_missing() {
    let block = build_zebra_weight_block("3 kg", "   ");

    assert_eq!(block.zpl, "^FO8,118^A0N,44,38\n^FDVAZNI: 3 kg^FS\n");
    assert_eq!(block.epc_y, 184);
}

#[test]
fn full_text_of_two_line_block() {
    let block = build_zebra_weight_block("1", "2");

    assert_eq!(
        block.zpl,
        "^FO8,112^A0N,36,32\n^FDNETTO: 1^FS\n^FO8,158^A0N,36,32\n^FDBRUTTO: 2^FS\n"
    );
}
