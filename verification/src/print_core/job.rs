//! A print job prepared from a scale reading and the operator's selection.
use vstd::prelude::*;
use crate::print::mode::PrintMode;
use crate::print::printer::PrinterKind;
use crate::print::selection::PrintSelection;
use crate::scale::capabilities::{normalize_unit, unit_or_default};
use crate::text::{ascii_upper, string_from_chars, trim, trimmed_chars, upper_chars};

verus! {

/// A quantity in kilograms, held as the IEEE 754 bit pattern of the `f64`
/// that the scale or the operator gave. The library compares it with zero;
/// all arithmetic on it happens outside. Two quantities are `==` as their
/// `f64`s are: zeros of either sign are equal, and a NaN equals nothing.
#[derive(Clone, Copy, Debug)]
pub struct Kilograms {
    pub bits: u64,
}

impl PartialEq for Kilograms {
    fn eq(&self, other: &Kilograms) -> (r: bool) {
        let nan_a = (self.bits >> 52u64) & 0x7ffu64 == 0x7ffu64 && self.bits
            & 0xf_ffff_ffff_ffffu64 != 0;
        let nan_b = (other.bits >> 52u64) & 0x7ffu64 == 0x7ffu64 && other.bits
            & 0xf_ffff_ffff_ffffu64 != 0;
        !nan_a && !nan_b && (self.bits == other.bits || (self.bits & 0x7fff_ffff_ffff_ffffu64 == 0
            && other.bits & 0x7fff_ffff_ffff_ffffu64 == 0))
    }
}

impl vstd::std_specs::cmp::PartialEqSpecImpl for Kilograms {
    open spec fn obeys_eq_spec() -> bool {
        true
    }

    open spec fn eq_spec(&self, other: &Kilograms) -> bool {
        self.same_quantity(*other)
    }
}

impl Kilograms {
    /// The encoding of a NaN: all exponent bits set and a nonzero fraction.
    pub open spec fn is_nan(self) -> bool {
        (self.bits >> 52u64) & 0x7ffu64 == 0x7ffu64 && self.bits & 0xf_ffff_ffff_ffffu64 != 0
    }

    /// The encoded value is at most zero (`x <= 0.0` for the `f64`): a zero of
    /// either sign, or a negative number; never a NaN.
    pub open spec fn at_most_zero(self) -> bool {
        !self.is_nan() && (self.bits >> 63u64 == 1 || self.bits & 0x7fff_ffff_ffff_ffffu64 == 0)
    }

    pub fn is_at_most_zero(&self) -> (r: bool)
        ensures
            r == self.at_most_zero(),
    {
        let nan = (self.bits >> 52u64) & 0x7ffu64 == 0x7ffu64 && self.bits & 0xf_ffff_ffff_ffffu64
            != 0;
        !nan && (self.bits >> 63u64 == 1 || self.bits & 0x7fff_ffff_ffff_ffffu64 == 0)
    }

    /// The two encode the same `f64` value (`x == y` for the `f64`s): neither
    /// is a NaN, and the encodings are equal or both are zeros.
    pub open spec fn same_quantity(self, other: Kilograms) -> bool {
        !self.is_nan() && !other.is_nan() && (self.bits == other.bits || (self.bits
            & 0x7fff_ffff_ffff_ffffu64 == 0 && other.bits & 0x7fff_ffff_ffff_ffffu64 == 0))
    }

    /// The encoded value is below `bound`, a positive finite quantity (`x < bound`
    /// for the `f64`s): a zero or negative number, or a positive one whose
    /// encoding orders before the bound's; never a NaN.
    pub open spec fn below_positive(self, bound: Kilograms) -> bool {
        !self.is_nan() && (self.bits >> 63u64 == 1 || self.bits < bound.bits)
    }

    pub fn is_below_positive(&self, bound: &Kilograms) -> (r: bool)
        ensures
            r == self.below_positive(*bound),
    {
        let nan = (self.bits >> 52u64) & 0x7ffu64 == 0x7ffu64 && self.bits & 0xf_ffff_ffff_ffffu64
            != 0;
        !nan && (self.bits >> 63u64 == 1 || self.bits < bound.bits)
    }
}

/// A print job as plain values.
pub struct CorePrintJobView {
    pub epc: Seq<char>,
    pub item_code: Seq<char>,
    pub item_name: Seq<char>,
    pub warehouse: Seq<char>,
    pub unit: Seq<char>,
    pub net_qty: Kilograms,
    pub gross_qty: Kilograms,
    pub tare: bool,
    pub tare_kg: Kilograms,
    pub printer: Option<PrinterKind>,
    pub mode: PrintMode,
}

/// The prepared job that the core validates against the printer's capabilities.
#[derive(Clone, Debug, PartialEq)]
pub struct CorePrintJob {
    pub epc: String,
    pub item_code: String,
    pub item_name: String,
    pub warehouse: String,
    pub unit: String,
    pub net_qty: Kilograms,
    pub gross_qty: Kilograms,
    pub tare: bool,
    pub tare_kg: Kilograms,
    pub printer: Option<PrinterKind>,
    pub mode: PrintMode,
}

impl View for CorePrintJob {
    type V = CorePrintJobView;

    open spec fn view(&self) -> CorePrintJobView {
        CorePrintJobView {
            epc: self.epc@,
            item_code: self.item_code@,
            item_name: self.item_name@,
            warehouse: self.warehouse@,
            unit: self.unit@,
            net_qty: self.net_qty,
            gross_qty: self.gross_qty,
            tare: self.tare,
            tare_kg: self.tare_kg,
            printer: self.printer,
            mode: self.mode,
        }
    }
}

impl CorePrintJob {
    /// The job for a (normalized) selection: the EPC trimmed and in ASCII
    /// upper case, the unit normalized (`kg` when blank), the printer read
    /// from the selection's printer name.
    pub fn from_selection(
        epc: &str,
        net_qty: Kilograms,
        gross_qty: Kilograms,
        unit: &str,
        selection: PrintSelection,
    ) -> (r: CorePrintJob)
        ensures
            r.epc@ == ascii_upper(trim(epc@)),
            r.item_code == selection.item_code,
            r.item_name == selection.item_name,
            r.warehouse == selection.warehouse,
            r.unit@ == unit_or_default(unit@),
            r.net_qty == net_qty,
            r.gross_qty == gross_qty,
            r.tare == selection.tare_enabled,
            r.tare_kg == selection.tare_kg,
            r.printer == PrinterKind::named(selection.printer@),
            r.mode == selection.print_mode,
    {
        let printer = PrinterKind::from_name(selection.printer.as_str());
        CorePrintJob {
            epc: string_from_chars(&upper_chars(&trimmed_chars(epc))),
            item_code: selection.item_code,
            item_name: selection.item_name,
            warehouse: selection.warehouse,
            unit: normalize_unit(unit),
            net_qty,
            gross_qty,
            tare: selection.tare_enabled,
            tare_kg: selection.tare_kg,
            printer,
            mode: selection.print_mode,
        }
    }
}

} // verus!
