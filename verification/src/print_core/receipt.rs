//! Preparing a print job from a scale reading and the operator's selection.
use vstd::prelude::*;
use crate::print::printer::PrinterKind;
use crate::print::selection::PrintSelection;
use crate::scale::capabilities::unit_or_default;
use crate::scale::reading::Reading;
use crate::text::{ascii_lower, ascii_upper, push_str, to_owned_string, trim};
use super::job::{CorePrintJob, CorePrintJobView, Kilograms};

verus! {

/// The smallest quantity of a batch, `0.100` kg, as the bits of its `f64`.
pub const MIN_BATCH_QTY_BITS: u64 = 0x3fb9_9999_9999_999a;

/// The smallest quantity of a batch.
pub open spec fn min_batch_qty() -> Kilograms {
    Kilograms { bits: MIN_BATCH_QTY_BITS }
}

/// The reasons for which a material receipt cannot become a print job.
#[derive(Clone, Debug, PartialEq)]
pub enum PreparePrintJobError {
    MissingWeight,
    MissingItemCode,
    MissingWarehouse,
    GrossQtyTooSmall { gross_qty: Kilograms },
    NetQtyTooSmall { gross_qty: Kilograms, tare_kg: Kilograms, net_qty: Kilograms },
}

/// The job, or the error, that a reading and a selection give. The selection
/// is read as normalizing leaves it; `tared_qty` stands for the gross weight
/// less the tare, floored at zero, and is read only where the tare applies.
/// The checks come in this order: item code, warehouse, weight, gross
/// quantity, net quantity.
pub open spec fn prepared_job(
    reading: Reading,
    selection: PrintSelection,
    epc: Seq<char>,
    tared_qty: Kilograms,
) -> Result<CorePrintJobView, PreparePrintJobError> {
    let code = trim(selection.item_code@);
    let name = trim(selection.item_name@);
    let warehouse = trim(selection.warehouse@);
    if code.len() == 0 {
        Err(PreparePrintJobError::MissingItemCode)
    } else if warehouse.len() == 0 {
        Err(PreparePrintJobError::MissingWarehouse)
    } else {
        match reading.weight {
            None => Err(PreparePrintJobError::MissingWeight),
            Some(gross) => {
                let net = if selection.tare_applies() {
                    tared_qty
                } else {
                    gross
                };
                if gross.below_positive(min_batch_qty()) {
                    Err(PreparePrintJobError::GrossQtyTooSmall { gross_qty: gross })
                } else if net.below_positive(min_batch_qty()) {
                    Err(
                        PreparePrintJobError::NetQtyTooSmall {
                            gross_qty: gross,
                            tare_kg: selection.applied_tare(),
                            net_qty: net,
                        },
                    )
                } else {
                    Ok(
                        CorePrintJobView {
                            epc: ascii_upper(trim(epc)),
                            item_code: code,
                            item_name: if name.len() == 0 {
                                code
                            } else {
                                name
                            },
                            warehouse,
                            unit: unit_or_default(reading.unit@),
                            net_qty: net,
                            gross_qty: gross,
                            tare: selection.tare_applies(),
                            tare_kg: selection.applied_tare(),
                            printer: PrinterKind::named(ascii_lower(trim(selection.printer@))),
                            mode: selection.print_mode,
                        },
                    )
                }
            },
        }
    }
}

/// Prepares the print job for a material receipt: the selection normalized,
/// its item code and warehouse required, the reading's weight required and at
/// least the batch minimum, and so the net quantity (the weight less the
/// enabled tare). `tared_qty` is `(weight - tare_kg).max(0.0)`, computed in
/// floating point by the caller; it is read only when the tare applies.
pub fn prepare_print_job(
    reading: &Reading,
    selection: PrintSelection,
    epc: &str,
    tared_qty: Kilograms,
) -> (r: Result<CorePrintJob, PreparePrintJobError>)
    ensures
        match r {
            Ok(job) => prepared_job(*reading, selection, epc@, tared_qty) == Ok::<
                CorePrintJobView,
                PreparePrintJobError,
            >(job@),
            Err(e) => prepared_job(*reading, selection, epc@, tared_qty) == Err::<
                CorePrintJobView,
                PreparePrintJobError,
            >(e),
        },
{
    let selection = selection.normalized();
    if selection.item_code.as_str().is_empty() {
        return Err(PreparePrintJobError::MissingItemCode);
    }
    if selection.warehouse.as_str().is_empty() {
        return Err(PreparePrintJobError::MissingWarehouse);
    }
    let gross_qty = match reading.weight {
        Some(w) => w,
        None => {
            return Err(PreparePrintJobError::MissingWeight);
        },
    };
    let min = Kilograms { bits: MIN_BATCH_QTY_BITS };
    if gross_qty.is_below_positive(&min) {
        return Err(PreparePrintJobError::GrossQtyTooSmall { gross_qty });
    }
    let net_qty = selection.net_qty(gross_qty, tared_qty);
    if net_qty.is_below_positive(&min) {
        return Err(
            PreparePrintJobError::NetQtyTooSmall { gross_qty, tare_kg: selection.tare_kg, net_qty },
        );
    }
    Ok(CorePrintJob::from_selection(epc, net_qty, gross_qty, reading.unit.as_str(), selection))
}

/// The batch minimum: a job is prepared only from a reading whose weight is at
/// least the minimum and whose net quantity is at least the minimum too. The
/// job then carries that weight as its gross quantity, the net quantity equals
/// the gross when no tare applies, and the item code and warehouse are set.
pub proof fn prepared_jobs_meet_batch_minimum(
    reading: Reading,
    selection: PrintSelection,
    epc: Seq<char>,
    tared_qty: Kilograms,
)
    ensures
        prepared_job(reading, selection, epc, tared_qty) matches Ok(job) ==> {
            &&& reading.weight == Some(job.gross_qty)
            &&& !job.gross_qty.below_positive(min_batch_qty())
            &&& !job.net_qty.below_positive(min_batch_qty())
            &&& job.tare == selection.tare_applies()
            &&& !job.tare ==> job.net_qty == job.gross_qty
            &&& job.item_code.len() > 0
            &&& job.warehouse.len() > 0
        },
{
}

/// What a prepared job is made of. A job is prepared exactly when the trimmed
/// item code and warehouse are not empty, the reading has a weight, and
/// neither that weight nor the net quantity (the tared quantity when an
/// enabled tare above zero applies, else the weight) is below the batch
/// minimum. The job then carries the reading's unit trimmed and in ASCII
/// lower case, `kg` only when that is empty; the EPC trimmed and in ASCII
/// upper case; the trimmed item code and warehouse; the item name, or the
/// item code when the name is blank; and the selection's print mode.
pub proof fn prepared_job_contents(
    reading: Reading,
    selection: PrintSelection,
    epc: Seq<char>,
    tared_qty: Kilograms,
)
    ensures
        prepared_job(reading, selection, epc, tared_qty) is Ok <==> {
            &&& trim(selection.item_code@).len() > 0
            &&& trim(selection.warehouse@).len() > 0
            &&& reading.weight is Some
            &&& !reading.weight->0.below_positive(min_batch_qty())
            &&& !(if selection.tare_enabled && !selection.tare_kg.at_most_zero() {
                tared_qty
            } else {
                reading.weight->0
            }).below_positive(min_batch_qty())
        },
        prepared_job(reading, selection, epc, tared_qty) matches Ok(job) ==> {
            &&& job.unit == (if ascii_lower(trim(reading.unit@)).len() == 0 {
                seq!['k', 'g']
            } else {
                ascii_lower(trim(reading.unit@))
            })
            &&& job.epc == ascii_upper(trim(epc))
            &&& job.item_code == trim(selection.item_code@)
            &&& job.warehouse == trim(selection.warehouse@)
            &&& job.item_name == (if trim(selection.item_name@).len() == 0 {
                trim(selection.item_code@)
            } else {
                trim(selection.item_name@)
            })
            &&& job.mode == selection.print_mode
            &&& job.gross_qty == reading.weight->0
        },
{
    reveal_strlit("kg");
}

impl PreparePrintJobError {
    /// The message of an error that carries no quantity; `None` for the two
    /// that do, whose quantities are written with three decimals by the caller.
    pub open spec fn fixed_message(self) -> Option<Seq<char>> {
        match self {
            PreparePrintJobError::MissingWeight => Some("scale weight bo'sh"@),
            PreparePrintJobError::MissingItemCode => Some("material receipt item code bo'sh"@),
            PreparePrintJobError::MissingWarehouse => Some("material receipt warehouse bo'sh"@),
            _ => None,
        }
    }

    /// Whether `text` is the error's message with its quantities written by
    /// `format_kg`.
    pub open spec fn described_as<F: Fn(Kilograms) -> String>(self, format_kg: F, text: Seq<char>) -> bool {
        match self {
            PreparePrintJobError::GrossQtyTooSmall { gross_qty } => exists|g: String, m: String|
                call_ensures(format_kg, (gross_qty,), g) && call_ensures(
                    format_kg,
                    (min_batch_qty(),),
                    m,
                ) && text == "QTY juda kichik: "@ + g@ + " kg | min "@ + m@ + " kg"@,
            PreparePrintJobError::NetQtyTooSmall { gross_qty, tare_kg, net_qty } => exists|
                g: String,
                t: String,
                n: String,
                m: String,
            |
                call_ensures(format_kg, (gross_qty,), g) && call_ensures(format_kg, (tare_kg,), t)
                    && call_ensures(format_kg, (net_qty,), n) && call_ensures(
                    format_kg,
                    (min_batch_qty(),),
                    m,
                ) && text == "NETTO juda kichik: brutto "@ + g@ + " kg - babina "@ + t@ + " kg = "@
                    + n@ + " kg | min "@ + m@ + " kg"@,
            _ => self.fixed_message() == Some(text),
        }
    }

    /// The error's message. Quantities are written by `format_kg` (three
    /// decimals, as the station shows them); the rest of the text is fixed.
    pub fn describe<F: Fn(Kilograms) -> String>(&self, format_kg: &F) -> (r: String)
        requires
            forall|k: Kilograms| call_requires(*format_kg, (k,)),
        ensures
            self.described_as(*format_kg, r@),
    {
        let min = Kilograms { bits: MIN_BATCH_QTY_BITS };
        match self {
            PreparePrintJobError::MissingWeight => to_owned_string("scale weight bo'sh"),
            PreparePrintJobError::MissingItemCode => to_owned_string(
                "material receipt item code bo'sh",
            ),
            PreparePrintJobError::MissingWarehouse => to_owned_string(
                "material receipt warehouse bo'sh",
            ),
            PreparePrintJobError::GrossQtyTooSmall { gross_qty } => {
                let g = format_kg(*gross_qty);
                let m = format_kg(min);
                let mut out = to_owned_string("QTY juda kichik: ");
                push_str(&mut out, g.as_str());
                push_str(&mut out, " kg | min ");
                push_str(&mut out, m.as_str());
                push_str(&mut out, " kg");
                out
            },
            PreparePrintJobError::NetQtyTooSmall { gross_qty, tare_kg, net_qty } => {
                let g = format_kg(*gross_qty);
                let t = format_kg(*tare_kg);
                let n = format_kg(*net_qty);
                let m = format_kg(min);
                let mut out = to_owned_string("NETTO juda kichik: brutto ");
                push_str(&mut out, g.as_str());
                push_str(&mut out, " kg - babina ");
                push_str(&mut out, t.as_str());
                push_str(&mut out, " kg = ");
                push_str(&mut out, n.as_str());
                push_str(&mut out, " kg | min ");
                push_str(&mut out, m.as_str());
                push_str(&mut out, " kg");
                out
            },
        }
    }
}

} // verus!
