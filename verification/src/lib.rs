//! A verified client-side experimentation enrollment engine.
//!
//! The engine reconciles the set of experiments a client knew about, the set
//! it now sees, and its prior enrollment records, producing updated records
//! and a list of change events.  The enrollment state machine, the evolver
//! that drives it across all experiment slugs, and the store transaction that
//! persists the results are all verified; the bucketing evaluator is a small
//! deterministic function with an exact specification, and the random
//! enrollment identifiers come from the `uuid` crate through a trusted
//! wrapper.

pub mod clock;
pub mod db;
pub mod enrollment;
pub mod errors;
pub mod evaluator;
pub mod evolver;
pub mod ids;
pub mod laws;
pub mod strutil;
pub mod types;

pub use clock::now_secs;
pub use db::{
    get_enrollments, get_global_user_participation, opt_in_with_branch, opt_out,
    set_global_user_participation, Database, EnrolledExperiment,
};
pub use enrollment::{
    DisqualifiedReason, EnrolledReason, EnrollmentChangeEvent, EnrollmentChangeEventType,
    EnrollmentStatus, ExperimentEnrollment, NotEnrolledReason,
};
pub use errors::NimbusError;
pub use evolver::EnrollmentsEvolver;
pub use ids::Uuid;
pub use types::{
    AppContext, AvailableRandomizationUnits, Branch, BucketConfig, Experiment, RandomizationUnit,
};
