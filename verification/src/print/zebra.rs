//! The weight lines of a Zebra ZPL label.
use vstd::prelude::*;
use crate::text::{is_blank, push_str, trim};

verus! {

/// The ZPL lines that print the weight, and where the lines below them go.
#[derive(Clone, Debug, PartialEq, Eq)]
pub struct ZebraWeightBlock {
    pub zpl: String,
    pub epc_y: i32,
    pub barcode_y: i32,
}

/// The ZPL text of the weight block: one large `VAZNI` line when there is
/// no gross weight, else a `NETTO` line and a `BRUTTO` line.
pub open spec fn weight_block_zpl(netto: Seq<char>, brutto: Seq<char>) -> Seq<char> {
    if trim(brutto).len() == 0 {
        "^FO8,118^A0N,44,38\n"@ + "^FDVAZNI: "@ + netto + "^FS\n"@
    } else {
        "^FO8,112^A0N,36,32\n"@ + "^FDNETTO: "@ + netto + "^FS\n"@ + "^FO8,158^A0N,36,32\n"@
            + "^FDBRUTTO: "@ + brutto + "^FS\n"@
    }
}

/// Builds the weight lines of a Zebra label. Without a gross weight the net
/// weight is printed alone and the EPC and barcode lines start at 184 and
/// 236; with both weights they start at 220 and 272.
pub fn build_zebra_weight_block(netto_text: &str, brutto_text: &str) -> (r: ZebraWeightBlock)
    ensures
        r.zpl@ == weight_block_zpl(netto_text@, brutto_text@),
        trim(brutto_text@).len() == 0 ==> r.epc_y == 184 && r.barcode_y == 236,
        trim(brutto_text@).len() != 0 ==> r.epc_y == 220 && r.barcode_y == 272,
{
    let mut zpl = String::new();
    if is_blank(brutto_text) {
        push_str(&mut zpl, "^FO8,118^A0N,44,38\n");
        push_str(&mut zpl, "^FDVAZNI: ");
        push_str(&mut zpl, netto_text);
        push_str(&mut zpl, "^FS\n");
        assert(zpl@ =~= weight_block_zpl(netto_text@, brutto_text@));
        return ZebraWeightBlock { zpl, epc_y: 184, barcode_y: 236 };
    }
    push_str(&mut zpl, "^FO8,112^A0N,36,32\n");
    push_str(&mut zpl, "^FDNETTO: ");
    push_str(&mut zpl, netto_text);
    push_str(&mut zpl, "^FS\n");
    push_str(&mut zpl, "^FO8,158^A0N,36,32\n");
    push_str(&mut zpl, "^FDBRUTTO: ");
    push_str(&mut zpl, brutto_text);
    push_str(&mut zpl, "^FS\n");
    assert(zpl@ =~= weight_block_zpl(netto_text@, brutto_text@));
    ZebraWeightBlock { zpl, epc_y: 220, barcode_y: 272 }
}

} // verus!
