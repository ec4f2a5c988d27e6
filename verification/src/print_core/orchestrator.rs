//! The core print policy: a job is planned only when the active printer's
//! driver supports its mode and the job carries every field the driver needs.
use vstd::prelude::*;
use crate::print::capabilities::{capabilities_for, model_for, names, PrinterCapabilities};
use crate::print::mode::PrintMode;
use crate::print::printer::PrinterKind;
use crate::print::selection::PrintSelection;
use crate::scale::reading::Reading;
use crate::text::{chars_of, eq_chars, is_blank, push_str, trim};
use super::job::{CorePrintJob, CorePrintJobView, Kilograms};
use super::receipt::{min_batch_qty, prepare_print_job, prepared_job, PreparePrintJobError};

verus! {

/// A job the active printer can perform, with that printer's capabilities.
#[derive(Clone, Debug, PartialEq)]
pub struct CorePrintPlan {
    pub job: CorePrintJob,
    pub printer: PrinterKind,
    pub capabilities: PrinterCapabilities,
}

/// Why no plan was made.
#[derive(Clone, Debug, PartialEq)]
pub enum CorePrintPlanError {
    PrepareJob(PreparePrintJobError),
    UnsupportedMode { printer: PrinterKind, mode: PrintMode },
    MissingRequiredFields { printer: PrinterKind, fields: Vec<&'static str> },
}

/// The printer a job goes to: the one it names, else the Zebra.
pub open spec fn target_printer(job: CorePrintJobView) -> PrinterKind {
    match job.printer {
        Some(p) => p,
        None => PrinterKind::Zebra,
    }
}

/// Whether the job lacks the required field called `field`. Unknown field
/// names are never missing.
pub open spec fn field_missing(job: CorePrintJobView, field: Seq<char>) -> bool {
    if field == "epc"@ {
        trim(job.epc).len() == 0
    } else if field == "item_code"@ {
        trim(job.item_code).len() == 0
    } else if field == "item_name"@ {
        trim(job.item_name).len() == 0
    } else if field == "weight"@ {
        job.net_qty.at_most_zero() || job.gross_qty.at_most_zero()
    } else {
        false
    }
}

/// The required fields that the job lacks, in the driver's order.
pub open spec fn missing_fields(job: CorePrintJobView, fields: Seq<Seq<char>>) -> Seq<Seq<char>>
    decreases fields.len(),
{
    if fields.len() == 0 {
        Seq::empty()
    } else {
        let m = missing_fields(job, fields.drop_last());
        if field_missing(job, fields.last()) {
            m.push(fields.last())
        } else {
            m
        }
    }
}

fn is_field_missing(job: &CorePrintJob, field: &'static str) -> (r: bool)
    ensures
        r == field_missing(job@, field@),
{
    proof {
        reveal_strlit("epc");
        reveal_strlit("item_code");
        reveal_strlit("item_name");
        reveal_strlit("weight");
    }
    let v = chars_of(field);
    if eq_chars(&v, "epc") {
        is_blank(job.epc.as_str())
    } else if eq_chars(&v, "item_code") {
        is_blank(job.item_code.as_str())
    } else if eq_chars(&v, "item_name") {
        is_blank(job.item_name.as_str())
    } else if eq_chars(&v, "weight") {
        job.net_qty.is_at_most_zero() || job.gross_qty.is_at_most_zero()
    } else {
        false
    }
}

fn missing_required_fields(job: &CorePrintJob, capabilities: &PrinterCapabilities) -> (r: Vec<
    &'static str,
>)
    ensures
        names(r@) == missing_fields(job@, names(capabilities.required_fields@)),
{
    let fields = capabilities.required_fields;
    let mut out: Vec<&'static str> = Vec::new();
    let mut i: usize = 0;
    while i < fields.len()
        invariant
            i <= fields@.len(),
            fields == capabilities.required_fields,
            names(out@) == missing_fields(job@, names(fields@.take(i as int))),
        decreases fields.len() - i,
    {
        let f = fields[i];
        let ghost before = out@;
        assert(names(fields@.take(i + 1)).drop_last() =~= names(fields@.take(i as int)));
        assert(names(fields@.take(i + 1)).last() == f@);
        if is_field_missing(job, f) {
            out.push(f);
            assert(names(out@) =~= names(before).push(f@));
        }
        i += 1;
    }
    assert(fields@.take(fields@.len() as int) =~= fields@);
    out
}

/// What checking a job against its printer's capabilities gives: refused
/// when the driver cannot perform the job's mode; else refused with the
/// driver's required fields that the job lacks, all of them and in the
/// driver's order; else a plan for the job on that printer.
pub open spec fn plan_outcome(job: CorePrintJobView, r: Result<CorePrintPlan, CorePrintPlanError>) -> bool {
    let printer = target_printer(job);
    let caps = model_for(printer);
    let allowed = match job.mode {
        PrintMode::Rfid => caps.flags.rfid_epc_write,
        PrintMode::LabelOnly => caps.flags.thermal_label,
    };
    let missing = missing_fields(job, caps.required_fields);
    &&& !allowed ==> r == Err::<CorePrintPlan, CorePrintPlanError>(
        CorePrintPlanError::UnsupportedMode { printer, mode: job.mode },
    )
    &&& allowed && missing.len() > 0 ==> (r matches Err(
        CorePrintPlanError::MissingRequiredFields { printer: p, fields },
    ) && p == printer && names(fields@) == missing)
    &&& allowed && missing.len() == 0 ==> (r matches Ok(plan) && plan.job@ == job
        && plan.printer == printer && plan.capabilities.model() == caps)
}

/// Checks a prepared job against the capabilities of its printer (the Zebra
/// when the job names none). A mode the driver cannot perform is refused
/// first; then the driver's required fields that the job lacks are reported;
/// otherwise the job is planned as it is.
pub fn validate_core_print_job(job: CorePrintJob) -> (r: Result<CorePrintPlan, CorePrintPlanError>)
    ensures
        plan_outcome(job@, r),
        r matches Ok(plan) ==> plan.job == job,
{
    let printer = match job.printer {
        Some(p) => p,
        None => PrinterKind::Zebra,
    };
    let capabilities = capabilities_for(printer);
    if !capabilities.supports_mode(job.mode) {
        return Err(CorePrintPlanError::UnsupportedMode { printer, mode: job.mode });
    }
    let missing = missing_required_fields(&job, &capabilities);
    if missing.len() > 0 {
        return Err(CorePrintPlanError::MissingRequiredFields { printer, fields: missing });
    }
    Ok(CorePrintPlan { job, printer, capabilities })
}

/// Plans a print for a material receipt: the job prepared from the reading
/// and the selection (see `prepare_print_job`, which takes `tared_qty` as it
/// does), then checked against its printer's capabilities.
pub fn plan_core_print(
    reading: &Reading,
    selection: PrintSelection,
    epc: &str,
    tared_qty: Kilograms,
) -> (r: Result<CorePrintPlan, CorePrintPlanError>)
    ensures
        match prepared_job(*reading, selection, epc@, tared_qty) {
            Err(e) => r == Err::<CorePrintPlan, CorePrintPlanError>(
                CorePrintPlanError::PrepareJob(e),
            ),
            Ok(job) => plan_outcome(job, r),
        },
{
    match prepare_print_job(reading, selection, epc, tared_qty) {
        Err(e) => Err(CorePrintPlanError::PrepareJob(e)),
        Ok(job) => validate_core_print_job(job),
    }
}

/// The names joined with `, ` between them.
pub open spec fn joined(fields: Seq<Seq<char>>) -> Seq<char>
    decreases fields.len(),
{
    if fields.len() == 0 {
        Seq::empty()
    } else if fields.len() == 1 {
        fields[0]
    } else {
        joined(fields.drop_last()) + ", "@ + fields.last()
    }
}

fn join_fields(fields: &Vec<&'static str>) -> (r: String)
    ensures
        r@ == joined(names(fields@)),
{
    let mut out = String::new();
    let mut i: usize = 0;
    while i < fields.len()
        invariant
            i <= fields@.len(),
            out@ == joined(names(fields@.take(i as int))),
        decreases fields.len() - i,
    {
        assert(names(fields@.take(i + 1)).drop_last() =~= names(fields@.take(i as int)));
        if i > 0 {
            push_str(&mut out, ", ");
        }
        push_str(&mut out, fields[i]);
        proof {
            if i == 0 {
                assert(out@ =~= names(fields@.take(1))[0]);
            }
        }
        i += 1;
    }
    assert(fields@.take(fields@.len() as int) =~= fields@);
    out
}

impl CorePrintPlanError {
    /// The error's message, where it holds no quantity: the capability
    /// refusals in full, and a preparation error's fixed message.
    pub open spec fn fixed_message(self) -> Option<Seq<char>> {
        match self {
            CorePrintPlanError::PrepareJob(e) => e.fixed_message(),
            CorePrintPlanError::UnsupportedMode { printer, mode } => Some(
                printer.name() + " does not support "@ + mode.name(),
            ),
            CorePrintPlanError::MissingRequiredFields { printer, fields } => Some(
                printer.name() + " print job missing required fields: "@ + joined(names(fields@)),
            ),
        }
    }

    /// The error's message, with quantities written by `format_kg`.
    pub fn describe<F: Fn(Kilograms) -> String>(&self, format_kg: &F) -> (r: String)
        requires
            forall|k: Kilograms| call_requires(*format_kg, (k,)),
        ensures
            match *self {
                CorePrintPlanError::PrepareJob(e) => e.described_as(*format_kg, r@),
                _ => self.fixed_message() == Some(r@),
            },
    {
        match self {
            CorePrintPlanError::PrepareJob(e) => e.describe(format_kg),
            CorePrintPlanError::UnsupportedMode { printer, mode } => {
                let mut out = String::new();
                push_str(&mut out, printer.as_str());
                push_str(&mut out, " does not support ");
                push_str(&mut out, mode.as_str());
                out
            },
            CorePrintPlanError::MissingRequiredFields { printer, fields } => {
                let mut out = String::new();
                push_str(&mut out, printer.as_str());
                push_str(&mut out, " print job missing required fields: ");
                let list = join_fields(fields);
                push_str(&mut out, list.as_str());
                out
            },
        }
    }
}

/// The print mode policy: no plan is ever made for a mode that the target
/// printer's driver does not declare, and every plan carries all fields the
/// driver requires.
pub proof fn planned_jobs_are_supported(job: CorePrintJobView, plan: CorePrintPlan)
    requires
        plan.job@ == job,
        plan.printer == target_printer(job),
        plan.capabilities.model() == model_for(target_printer(job)),
        plan.capabilities.allows(job.mode),
        missing_fields(job, model_for(target_printer(job)).required_fields).len() == 0,
    ensures
        forall|i: int|
            0 <= i < model_for(plan.printer).required_fields.len() ==> !field_missing(
                job,
                #[trigger] model_for(plan.printer).required_fields[i],
            ),
        plan.printer == PrinterKind::Godex ==> job.mode == PrintMode::LabelOnly,
{
    let fields = model_for(plan.printer).required_fields;
    lemma_missing_fields_empty(job, fields);
    assert(plan.capabilities.rfid_epc_write == model_for(plan.printer).flags.rfid_epc_write);
}

/// Core validates every request: whatever `plan_core_print` returns for a
/// material receipt, a plan is made only for a mode that the printer's driver
/// declares, with every field the driver requires, for a reading whose weight
/// and net quantity both reach the batch minimum.
pub proof fn planned_receipts_are_valid(
    reading: Reading,
    selection: PrintSelection,
    epc: Seq<char>,
    tared_qty: Kilograms,
    r: Result<CorePrintPlan, CorePrintPlanError>,
)
    requires
        match prepared_job(reading, selection, epc, tared_qty) {
            Err(e) => r == Err::<CorePrintPlan, CorePrintPlanError>(CorePrintPlanError::PrepareJob(e)),
            Ok(job) => plan_outcome(job, r),
        },
    ensures
        r matches Ok(plan) ==> {
            &&& plan.capabilities.allows(plan.job.mode)
            &&& plan.capabilities.model() == model_for(plan.printer)
            &&& missing_fields(plan.job@, model_for(plan.printer).required_fields).len() == 0
            &&& reading.weight == Some(plan.job.gross_qty)
            &&& !plan.job.gross_qty.below_positive(min_batch_qty())
            &&& !plan.job.net_qty.below_positive(min_batch_qty())
        },
{
    if let Ok(plan) = r {
        super::receipt::prepared_jobs_meet_batch_minimum(reading, selection, epc, tared_qty);
        assert(plan.capabilities.rfid_epc_write == model_for(plan.printer).flags.rfid_epc_write);
        assert(plan.capabilities.thermal_label == model_for(plan.printer).flags.thermal_label);
    }
}

proof fn lemma_missing_fields_empty(job: CorePrintJobView, fields: Seq<Seq<char>>)
    requires
        missing_fields(job, fields).len() == 0,
    ensures
        forall|i: int| 0 <= i < fields.len() ==> !field_missing(job, #[trigger] fields[i]),
    decreases fields.len(),
{
    if fields.len() > 0 {
        lemma_missing_fields_grows(job, fields.drop_last());
        lemma_missing_fields_empty(job, fields.drop_last());
        assert forall|i: int| 0 <= i < fields.len() implies !field_missing(job, #[trigger] fields[i]) by {
            if i < fields.len() - 1 {
                assert(fields[i] == fields.drop_last()[i]);
            }
        }
    }
}

proof fn lemma_missing_fields_grows(job: CorePrintJobView, fields: Seq<Seq<char>>)
    ensures
        missing_fields(job, fields).len() <= fields.len(),
    decreases fields.len(),
{
    if fields.len() > 0 {
        lemma_missing_fields_grows(job, fields.drop_last());
    }
}

} // verus!
