//! Where the quantity of a print job comes from.
use vstd::prelude::*;
use crate::text::{
    ascii_lower, eq_chars, lemma_lower_unchanged, lemma_trim_unchanged, lower_trimmed, string_from_chars,
    trim, trim_str,
};
use crate::print_core::job::Kilograms;
use super::mode::PrintMode;

verus! {

/// Whether the printed quantity is the scale's weight or a weight the
/// operator typed.
#[derive(Clone, Copy, Debug, PartialEq, Eq, Structural)]
pub enum QuantitySource {
    Scale,
    Manual,
}

/// The names that select a manual quantity, after trimming and ASCII lower case.
pub open spec fn is_manual_name(t: Seq<char>) -> bool {
    t == "manual"@ || t == "manual_kg"@ || t == "manual-kg"@ || t == "kg"@
}

impl QuantitySource {
    pub open spec fn from_name(value: Seq<char>) -> QuantitySource {
        if is_manual_name(ascii_lower(trim(value))) {
            QuantitySource::Manual
        } else {
            QuantitySource::Scale
        }
    }

    pub open spec fn name(self) -> Seq<char> {
        match self {
            QuantitySource::Scale => "scale"@,
            QuantitySource::Manual => "manual"@,
        }
    }

    /// Reads a quantity source from the mobile app: `manual`, `manual_kg`,
    /// `manual-kg` and `kg` (any ASCII case, outer white space ignored) select
    /// the manual quantity; anything else the scale.
    pub fn normalize(value: &str) -> (r: QuantitySource)
        ensures
            r == QuantitySource::from_name(value@),
    {
        let t = lower_trimmed(value);
        if eq_chars(&t, "manual") || eq_chars(&t, "manual_kg") || eq_chars(&t, "manual-kg")
            || eq_chars(&t, "kg") {
            QuantitySource::Manual
        } else {
            QuantitySource::Scale
        }
    }

    /// The source's name in the mobile API.
    pub fn as_str(self) -> (r: &'static str)
        ensures
            r@ == self.name(),
    {
        match self {
            QuantitySource::Scale => "scale",
            QuantitySource::Manual => "manual",
        }
    }
}

/// Reading back the name of a source gives the same source.
pub proof fn quantity_source_name_round_trip(q: QuantitySource)
    ensures
        QuantitySource::from_name(q.name()) == q,
{
    reveal_strlit("scale");
    reveal_strlit("manual");
    reveal_strlit("manual_kg");
    reveal_strlit("manual-kg");
    reveal_strlit("kg");
    let n = q.name();
    lemma_trim_unchanged(n);
    lemma_lower_unchanged(n);
}

/// What the operator chose on the mobile app for one print.
#[derive(Clone, Debug, PartialEq)]
pub struct PrintSelection {
    pub item_code: String,
    pub item_name: String,
    pub warehouse: String,
    pub print_mode: PrintMode,
    pub printer: String,
    pub quantity_source: QuantitySource,
    pub manual_qty_kg: Kilograms,
    pub tare_enabled: bool,
    pub tare_kg: Kilograms,
}

/// The zero quantity, `+0.0`.
pub open spec fn zero_kg() -> Kilograms {
    Kilograms { bits: 0 }
}

impl PrintSelection {
    /// Normalizes a selection: texts trimmed, the printer name in ASCII lower
    /// case; the manual quantity kept only for a manual source and above zero;
    /// tare kept only when enabled and above zero; a blank item name replaced
    /// by the item code.
    pub fn normalized(self) -> (r: PrintSelection)
        ensures
            r.item_code@ == trim(self.item_code@),
            r.item_name@ == (if trim(self.item_name@).len() == 0 {
                trim(self.item_code@)
            } else {
                trim(self.item_name@)
            }),
            r.warehouse@ == trim(self.warehouse@),
            r.printer@ == ascii_lower(trim(self.printer@)),
            r.print_mode == self.print_mode,
            r.quantity_source == self.quantity_source,
            r.manual_qty_kg == (if self.quantity_source != QuantitySource::Manual
                || self.manual_qty_kg.at_most_zero() {
                zero_kg()
            } else {
                self.manual_qty_kg
            }),
            r.tare_enabled == (self.tare_enabled && !self.tare_kg.at_most_zero()),
            r.tare_kg == (if !self.tare_enabled || self.tare_kg.at_most_zero() {
                zero_kg()
            } else {
                self.tare_kg
            }),
    {
        let mut s = self;
        s.item_code = trim_str(s.item_code.as_str());
        s.item_name = trim_str(s.item_name.as_str());
        s.warehouse = trim_str(s.warehouse.as_str());
        s.printer = string_from_chars(&lower_trimmed(s.printer.as_str()));
        if s.quantity_source != QuantitySource::Manual || s.manual_qty_kg.is_at_most_zero() {
            s.manual_qty_kg = Kilograms { bits: 0 };
        }
        if !s.tare_enabled || s.tare_kg.is_at_most_zero() {
            s.tare_enabled = false;
            s.tare_kg = Kilograms { bits: 0 };
        }
        if s.item_name.as_str().is_empty() {
            s.item_name = s.item_code.clone();
        }
        s
    }

    /// Whether normalizing keeps the tare: it is enabled and above zero.
    pub open spec fn tare_applies(self) -> bool {
        self.tare_enabled && !self.tare_kg.at_most_zero()
    }

    /// The tare that normalizing keeps: the selection's, else zero.
    pub open spec fn applied_tare(self) -> Kilograms {
        if self.tare_applies() {
            self.tare_kg
        } else {
            zero_kg()
        }
    }

    /// The net quantity of `gross_qty`: the gross itself when no tare is
    /// enabled, else `tared_qty`, which is `(gross_qty - tare_kg).max(0.0)`
    /// as the caller computes it in floating point.
    pub fn net_qty(&self, gross_qty: Kilograms, tared_qty: Kilograms) -> (r: Kilograms)
        ensures
            r == (if self.tare_enabled {
                tared_qty
            } else {
                gross_qty
            }),
    {
        if !self.tare_enabled {
            return gross_qty;
        }
        tared_qty
    }

    /// Whether the operator typed the quantity.
    pub fn uses_manual_qty(&self) -> (r: bool)
        ensures
            r == (self.quantity_source == QuantitySource::Manual),
    {
        self.quantity_source == QuantitySource::Manual
    }
}

/// Normalizing twice changes nothing more.
pub proof fn normalized_texts_are_stable(code: Seq<char>, name: Seq<char>)
    ensures
        trim(trim(code)) == trim(code),
        trim(trim(name)) == trim(name),
{
    crate::text::lemma_trim_idempotent(code);
    crate::text::lemma_trim_idempotent(name);
}

} // verus!
