//! The core print flow: prepared jobs checked against printer capabilities.
pub mod job;
pub mod orchestrator;
pub mod receipt;

pub use job::{CorePrintJob, Kilograms};
pub use orchestrator::{CorePrintPlan, CorePrintPlanError, plan_core_print, validate_core_print_job};
pub use receipt::{MIN_BATCH_QTY_BITS, PreparePrintJobError, prepare_print_job};
