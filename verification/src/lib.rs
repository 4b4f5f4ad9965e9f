//! Drift detection over a tree of Terragrunt working directories.
//!
//! A batch run has four parts, each a module of this crate:
//!
//! - [`discovery`] picks the working directories, the units of the batch,
//!   out of what a walk of the tree found;
//! - [`scheduler`] decides when each unit is started and when a completion
//!   is awaited, so that the number of units in flight stays bounded, and
//!   gathers the records of the units as they complete;
//! - [`executor`] says which command plans a unit and turns what came of
//!   running it into the unit's record;
//! - [`classifier`] reads the number of planned changes off the output of
//!   a plan.
//!
//! The crate walks no directory, starts no process and prints nothing: its
//! caller does, and hands over what it found as plain values. [`text`]
//! holds the model of text that the other modules share.

pub mod classifier;
pub mod discovery;
pub mod executor;
pub mod scheduler;
pub mod text;

pub use crate::classifier::{checked_plan_changes, parse_plan_changes};
pub use crate::discovery::{find_tg_dirs, WalkEntry};
pub use crate::executor::{plan_command, plan_result, PlanCommand, PlanResult, PlanStatus, RunOutcome};
pub use crate::scheduler::{Action, Scheduler};
