//! The compiler's output: an execution plan of steps.

use vstd::prelude::*;
use crate::keyed::StrMap;
use crate::value::{PublishSpec, SpecValue};

verus! {

/// The version of `ExecutionPlan` that this library writes.
pub const PLAN_VERSION: u32 = 1;

/// A compiled plan; every provider produces exactly one step.
#[derive(Debug, PartialEq)]
pub struct ExecutionPlan {
    pub version: u32,
    /// The spec that was compiled, carried for traceability.
    pub spec: PublishSpec,
    pub steps: Vec<PlanStep>,
}

/// One step of a plan: `title` is the program and its skeleton arguments,
/// joined by spaces.
#[derive(Debug, PartialEq)]
pub struct PlanStep {
    pub id: String,
    pub title: String,
    pub kind: String,
    /// Project path and parameters, for logging only.
    pub payload: StrMap<SpecValue>,
}

} // verus!
