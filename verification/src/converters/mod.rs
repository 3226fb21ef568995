//! Converters from Arazzo workflows to test scripts.

pub mod k6;

use vstd::prelude::*;
use crate::error::HornetError;
use crate::json::{depth_fits, JsonValue};
use crate::models::arazzo::{ArazzoSpec, Step, SuccessCriteria, Workflow};
use crate::models::openapi::OpenApiV3Spec;

verus! {

/// Options of a conversion.
pub struct ConvertOptions {
    /// Base URL of API requests (overrides the OpenAPI server URL).
    pub base_url: Option<String>,
    /// Number of virtual users.
    pub vus: Option<u32>,
    /// Duration of a load test (e.g. "30s", "5m").
    pub duration: Option<String>,
    /// Number of iterations (used when no duration is given).
    pub iterations: Option<u32>,
}

impl Default for ConvertOptions {
    fn default() -> (o: Self)
        ensures
            o.base_url is None,
            o.vus is None,
            o.duration is None,
            o.iterations is None,
    {
        ConvertOptions { base_url: None, vus: None, duration: None, iterations: None }
    }
}

/// Conversion of Arazzo workflows to test scripts.
pub trait Converter {
    /// What a conversion produces.
    type Output;

    /// Converts every workflow of a document.
    fn convert_spec(
        &self,
        arazzo: &ArazzoSpec,
        openapi: &OpenApiV3Spec,
        options: &ConvertOptions,
    ) -> Result<Self::Output, HornetError>
        requires
            spec_fits(*arazzo),
    ;

    /// Converts one workflow.
    fn convert_workflow(
        &self,
        workflow: &Workflow,
        openapi: &OpenApiV3Spec,
        options: &ConvertOptions,
    ) -> Result<Self::Output, HornetError>
        requires
            workflow_fits(*workflow),
    ;
}


/// Every criterion's expected value has a depth that fits.
pub open spec fn criteria_fit(criteria: Seq<SuccessCriteria>) -> bool {
    forall|i: int| 0 <= i < criteria.len() ==> match #[trigger] criteria[i].value {
        Some(v) => depth_fits(v),
        None => true,
    }
}

/// The inputs of a workflow have a depth that fits.
pub open spec fn inputs_fit(inputs: Option<JsonValue>) -> bool {
    match inputs {
        Some(v) => depth_fits(v),
        None => true,
    }
}

/// Every JSON value of a step has a depth that fits.
pub open spec fn step_fits(step: Step) -> bool {
    &&& forall|i: int| 0 <= i < step.parameters@.len() ==> depth_fits(#[trigger] step.parameters@[i].value)
    &&& match step.request_body {
        Some(b) => depth_fits(b.payload),
        None => true,
    }
    &&& match step.success_criteria {
        Some(c) => criteria_fit(c@),
        None => true,
    }
}

/// Every JSON value of a workflow has a depth that fits.
pub open spec fn workflow_fits(w: Workflow) -> bool {
    &&& inputs_fit(w.inputs)
    &&& forall|i: int| 0 <= i < w.steps@.len() ==> step_fits(#[trigger] w.steps@[i])
}

/// Every JSON value of every workflow has a depth that fits.
pub open spec fn spec_fits(a: ArazzoSpec) -> bool {
    forall|i: int| 0 <= i < a.workflows@.len() ==> workflow_fits(#[trigger] a.workflows@[i])
}

} // verus!
