//! The Arazzo specification document and its validation.

use vstd::prelude::*;
use crate::error::{ErrorKind, HornetError};
use crate::json::JsonValue;
use crate::text::{chars_of, seq_starts_with, starts_with};

verus! {

/// Arazzo specification root object.
#[derive(Clone)]
pub struct ArazzoSpec {
    /// The version of the Arazzo Specification (e.g. "1.0.0").
    pub arazzo: String,
    /// Metadata about the document.
    pub info: Info,
    /// References to the OpenAPI documents the workflows use.
    pub source_descriptions: Vec<SourceDescription>,
    /// The workflows.
    pub workflows: Vec<Workflow>,
    /// Reusable components.
    pub components: Option<Components>,
}

/// Metadata about an Arazzo document.
#[derive(Clone)]
pub struct Info {
    pub title: String,
    pub summary: Option<String>,
    pub description: Option<String>,
    pub version: String,
}

/// A reference to a source document.
#[derive(Clone)]
pub struct SourceDescription {
    /// A unique name for the source description.
    pub name: String,
    /// A URL or relative path to the document.
    pub url: String,
    /// The type of the source (defaults to "openapi").
    pub source_type: Option<String>,
}

/// A workflow: an ordered list of steps.
#[derive(Clone)]
pub struct Workflow {
    pub workflow_id: String,
    pub summary: Option<String>,
    pub description: Option<String>,
    pub inputs: Option<JsonValue>,
    pub steps: Vec<Step>,
    pub success_criteria: Option<Vec<SuccessCriteria>>,
    pub outputs: Option<JsonValue>,
    /// Extension members (`x-*`), in document order.
    pub extensions: Vec<(String, JsonValue)>,
}

/// One step of a workflow.
#[derive(Clone)]
pub struct Step {
    pub step_id: String,
    pub description: Option<String>,
    /// Reference to an operation by operationId.
    pub operation_id: Option<String>,
    /// Reference to an operation by path and method.
    pub operation_path: Option<String>,
    /// Reference to a workflow to execute.
    pub workflow_id: Option<String>,
    pub parameters: Vec<Parameter>,
    pub request_body: Option<RequestBody>,
    pub success_criteria: Option<Vec<SuccessCriteria>>,
    pub on_success: Option<Vec<SuccessAction>>,
    pub on_failure: Option<Vec<FailureAction>>,
    pub outputs: Option<JsonValue>,
}

/// A parameter passed to an operation.
#[derive(Clone)]
pub struct Parameter {
    pub name: String,
    /// Where the parameter goes (query, header, path, cookie).
    pub location: String,
    /// The value; may be a runtime expression.
    pub value: JsonValue,
}

/// The request body of an operation.
#[derive(Clone)]
pub struct RequestBody {
    pub content_type: Option<String>,
    pub payload: JsonValue,
}

/// A condition that a step's response must meet.
#[derive(Clone)]
pub struct SuccessCriteria {
    /// The context to evaluate (e.g. "$statusCode").
    pub context: String,
    /// The comparison (e.g. "$eq").
    pub condition: String,
    pub value: Option<JsonValue>,
    pub criteria_type: Option<String>,
}

/// An action taken when a step succeeds.
#[derive(Clone)]
pub struct SuccessAction {
    pub name: String,
    pub action_type: String,
    pub config: Vec<(String, JsonValue)>,
}

/// An action taken when a step fails.
#[derive(Clone)]
pub struct FailureAction {
    pub name: String,
    pub action_type: String,
    pub config: Vec<(String, JsonValue)>,
}

/// Reusable components.
#[derive(Clone)]
pub struct Components {
    pub parameters: Option<Vec<(String, Parameter)>>,
    pub success_actions: Option<Vec<(String, SuccessAction)>>,
    pub failure_actions: Option<Vec<(String, FailureAction)>>,
    pub extensions: Vec<(String, JsonValue)>,
}

/// `ids[j]` repeats an entry before it.
pub open spec fn repeats_earlier(ids: Seq<Seq<char>>, j: int) -> bool {
    exists|i: int| 0 <= i < j && ids[i] == ids[j]
}

/// The first position at or after `j` whose entry repeats an earlier one.
pub open spec fn first_repeat_from(ids: Seq<Seq<char>>, j: int) -> Option<int>
    decreases ids.len() - j,
{
    if j < 0 || j >= ids.len() {
        None
    } else if repeats_earlier(ids, j) {
        Some(j)
    } else {
        first_repeat_from(ids, j + 1)
    }
}

/// No entry occurs twice.
pub open spec fn all_distinct(ids: Seq<Seq<char>>) -> bool {
    forall|i: int, j: int| 0 <= i < j < ids.len() ==> ids[i] != ids[j]
}

/// The views of a sequence of strings.
pub open spec fn string_views(v: Seq<String>) -> Seq<Seq<char>> {
    v.map_values(|s: String| s@)
}

/// The first position of `v` whose entry repeats an earlier one.
pub fn first_repeat(v: &[String]) -> (r: Option<usize>)
    ensures
        match r {
            Some(j) => first_repeat_from(string_views(v@), 0) == Some(j as int),
            None => first_repeat_from(string_views(v@), 0) is None,
        },
{
    let ghost ids = string_views(v@);
    let mut j: usize = 0;
    while j < v.len()
        invariant
            j <= v@.len(),
            ids == string_views(v@),
            first_repeat_from(ids, 0) == first_repeat_from(ids, j as int),
        decreases v.len() - j,
    {
        let mut i: usize = 0;
        while i < j
            invariant
                i <= j < v@.len(),
                ids == string_views(v@),
                first_repeat_from(ids, 0) == first_repeat_from(ids, j as int),
                forall|k: int| 0 <= k < i ==> ids[k] != ids[j as int],
            decreases j - i,
        {
            if v[i] == v[j] {
                assert(ids[i as int] == ids[j as int]);
                assert(repeats_earlier(ids, j as int));
                return Some(j);
            }
            i = i + 1;
        }
        assert(!repeats_earlier(ids, j as int));
        j = j + 1;
    }
    None
}

/// A repeat found from `j` on lies in range and repeats an earlier entry.
pub proof fn lemma_first_repeat_bounds(ids: Seq<Seq<char>>, j: int)
    requires
        first_repeat_from(ids, j) is Some,
    ensures
        j <= first_repeat_from(ids, j).unwrap() < ids.len(),
        repeats_earlier(ids, first_repeat_from(ids, j).unwrap()),
    decreases ids.len() - j,
{
    if !(j < 0 || j >= ids.len()) && !repeats_earlier(ids, j) {
        lemma_first_repeat_bounds(ids, j + 1);
    }
}

/// Without a repeat from `j` on, entries from `j` on repeat nothing before them.
pub proof fn lemma_no_repeat_from(ids: Seq<Seq<char>>, j: int)
    requires
        0 <= j,
        first_repeat_from(ids, j) is None,
    ensures
        forall|k: int| j <= k < ids.len() ==> !repeats_earlier(ids, k),
    decreases ids.len() - j,
{
    if j < ids.len() {
        lemma_no_repeat_from(ids, j + 1);
    }
}

/// A sequence has no repeat exactly when its entries are distinct.
pub proof fn lemma_first_repeat_distinct(ids: Seq<Seq<char>>)
    ensures
        first_repeat_from(ids, 0) is None <==> all_distinct(ids),
{
    if first_repeat_from(ids, 0) is None {
        lemma_no_repeat_from(ids, 0);
        assert forall|i: int, j: int| 0 <= i < j < ids.len() implies ids[i] != ids[j] by {
            assert(!repeats_earlier(ids, j));
        }
    } else {
        lemma_repeat_found(ids, 0);
    }
}

/// A repeat found from `j` on is a pair of equal entries.
pub proof fn lemma_repeat_found(ids: Seq<Seq<char>>, j: int)
    requires
        first_repeat_from(ids, j) is Some,
    ensures
        !all_distinct(ids),
    decreases ids.len() - j,
{
    if !(j < 0 || j >= ids.len()) && !repeats_earlier(ids, j) {
        lemma_repeat_found(ids, j + 1);
    } else {
        let i = choose|i: int| 0 <= i < j && ids[i] == ids[j];
        assert(ids[i] == ids[j]);
    }
}

impl Step {
    /// The step names an operation, an operation path or a workflow to run.
    pub open spec fn has_target(&self) -> bool {
        self.operation_id is Some || self.operation_path is Some || self.workflow_id is Some
    }

    /// Why the step is invalid, if it is.
    pub open spec fn failure(&self) -> Option<Seq<char>> {
        if self.has_target() {
            None
        } else {
            Some("Step "@ + self.step_id@
                + " must have either operationId, operationPath, or workflowId"@)
        }
    }

    /// Checks that the step names an operation, operation path or workflow.
    pub fn validate(&self) -> (r: Result<(), HornetError>)
        ensures
            r is Ok <==> self.failure() is None,
            r matches Err(e) ==> e@ == (ErrorKind::Validation, self.failure().unwrap()),
    {
        if self.operation_id.is_none() && self.operation_path.is_none()
            && self.workflow_id.is_none() {
            let mut m = String::from_str("Step ");
            m.append(self.step_id.as_str());
            m.append(" must have either operationId, operationPath, or workflowId");
            return Err(HornetError::ValidationError(m));
        }
        Ok(())
    }
}

/// The first failure among `steps[j..]`.
pub open spec fn first_step_failure(steps: Seq<Step>, j: int) -> Option<Seq<char>>
    decreases steps.len() - j,
{
    if j < 0 || j >= steps.len() {
        None
    } else if steps[j].failure() is Some {
        steps[j].failure()
    } else {
        first_step_failure(steps, j + 1)
    }
}

/// The first failure among `workflows[j..]`.
pub open spec fn first_workflow_failure(workflows: Seq<Workflow>, j: int) -> Option<Seq<char>>
    decreases workflows.len() - j,
{
    if j < 0 || j >= workflows.len() {
        None
    } else if workflows[j].failure() is Some {
        workflows[j].failure()
    } else {
        first_workflow_failure(workflows, j + 1)
    }
}

impl Workflow {
    /// The step identifiers, in order.
    pub open spec fn step_ids(&self) -> Seq<Seq<char>> {
        self.steps@.map_values(|s: Step| s.step_id@)
    }

    /// Why the workflow is invalid, if it is: a repeated step identifier
    /// first, then the first invalid step.
    pub open spec fn failure(&self) -> Option<Seq<char>> {
        match first_repeat_from(self.step_ids(), 0) {
            Some(j) => Some("Duplicate step ID: "@ + self.step_ids()[j] + " in workflow "@
                + self.workflow_id@),
            None => first_step_failure(self.steps@, 0),
        }
    }

    /// Every step identifier is unique and every step names what it runs.
    pub open spec fn well_formed(&self) -> bool {
        &&& all_distinct(self.step_ids())
        &&& forall|k: int| 0 <= k < self.steps@.len() ==> #[trigger] self.steps@[k].has_target()
    }

    /// Checks that step identifiers are unique and that each step is valid.
    pub fn validate(&self) -> (r: Result<(), HornetError>)
        ensures
            r is Ok <==> self.failure() is None,
            r matches Err(e) ==> e@ == (ErrorKind::Validation, self.failure().unwrap()),
    {
        let mut ids: Vec<String> = Vec::new();
        let mut k: usize = 0;
        while k < self.steps.len()
            invariant
                k <= self.steps@.len(),
                string_views(ids@) == self.step_ids().subrange(0, k as int),
            decreases self.steps.len() - k,
        {
            let ghost old_ids = ids@;
            ids.push(self.steps[k].step_id.clone());
            assert(ids@ == old_ids.push(self.steps@[k as int].step_id));
            assert(string_views(ids@) =~= string_views(old_ids).push(self.steps@[k as int].step_id@));
            assert(self.step_ids().subrange(0, k + 1) =~= self.step_ids().subrange(0, k as int).push(self.steps@[k as int].step_id@));
            k = k + 1;
        }
        assert(string_views(ids@) =~= self.step_ids());
        match first_repeat(ids.as_slice()) {
            Some(j) => {
                proof { lemma_first_repeat_bounds(string_views(ids@), 0); }
                let mut m = String::from_str("Duplicate step ID: ");
                m.append(ids[j].as_str());
                m.append(" in workflow ");
                m.append(self.workflow_id.as_str());
                return Err(HornetError::ValidationError(m));
            },
            None => {},
        }
        let mut i: usize = 0;
        while i < self.steps.len()
            invariant
                i <= self.steps@.len(),
                first_repeat_from(self.step_ids(), 0) is None,
                first_step_failure(self.steps@, 0) == first_step_failure(self.steps@, i as int),
            decreases self.steps.len() - i,
        {
            match self.steps[i].validate() {
                Err(e) => {
                    return Err(e);
                },
                Ok(()) => {},
            }
            i = i + 1;
        }
        Ok(())
    }
}

impl ArazzoSpec {
    /// The workflow identifiers, in order.
    pub open spec fn workflow_ids(&self) -> Seq<Seq<char>> {
        self.workflows@.map_values(|w: Workflow| w.workflow_id@)
    }

    /// Why the document is invalid, if it is: an unsupported version first,
    /// then a repeated workflow identifier, then the first invalid workflow.
    pub open spec fn failure(&self) -> Option<Seq<char>> {
        if !seq_starts_with(self.arazzo@, "1."@) {
            Some("Unsupported Arazzo version: "@ + self.arazzo@)
        } else {
            match first_repeat_from(self.workflow_ids(), 0) {
                Some(j) => Some("Duplicate workflow ID: "@ + self.workflow_ids()[j]),
                None => first_workflow_failure(self.workflows@, 0),
            }
        }
    }

    /// A 1.x document whose workflow identifiers are unique and whose
    /// workflows are each well formed.
    pub open spec fn well_formed(&self) -> bool {
        &&& seq_starts_with(self.arazzo@, "1."@)
        &&& all_distinct(self.workflow_ids())
        &&& forall|k: int| 0 <= k < self.workflows@.len() ==> #[trigger] self.workflows@[k].well_formed()
    }

    /// Checks the version, the uniqueness of workflow identifiers, and each
    /// workflow.
    pub fn validate(&self) -> (r: Result<(), HornetError>)
        ensures
            r is Ok <==> self.failure() is None,
            r matches Err(e) ==> e@ == (ErrorKind::Validation, self.failure().unwrap()),
    {
        let v = chars_of(self.arazzo.as_str());
        let p = chars_of("1.");
        if !starts_with(v.as_slice(), p.as_slice()) {
            let mut m = String::from_str("Unsupported Arazzo version: ");
            m.append(self.arazzo.as_str());
            return Err(HornetError::ValidationError(m));
        }
        let mut ids: Vec<String> = Vec::new();
        let mut k: usize = 0;
        while k < self.workflows.len()
            invariant
                k <= self.workflows@.len(),
                string_views(ids@) == self.workflow_ids().subrange(0, k as int),
            decreases self.workflows.len() - k,
        {
            let ghost old_ids = ids@;
            ids.push(self.workflows[k].workflow_id.clone());
            assert(ids@ == old_ids.push(self.workflows@[k as int].workflow_id));
            assert(string_views(ids@) =~= string_views(old_ids).push(self.workflows@[k as int].workflow_id@));
            assert(self.workflow_ids().subrange(0, k + 1) =~= self.workflow_ids().subrange(0, k as int).push(self.workflows@[k as int].workflow_id@));
            k = k + 1;
        }
        assert(string_views(ids@) =~= self.workflow_ids());
        match first_repeat(ids.as_slice()) {
            Some(j) => {
                proof { lemma_first_repeat_bounds(string_views(ids@), 0); }
                let mut m = String::from_str("Duplicate workflow ID: ");
                m.append(ids[j].as_str());
                return Err(HornetError::ValidationError(m));
            },
            None => {},
        }
        let mut i: usize = 0;
        while i < self.workflows.len()
            invariant
                i <= self.workflows@.len(),
                seq_starts_with(self.arazzo@, "1."@),
                first_repeat_from(self.workflow_ids(), 0) is None,
                first_workflow_failure(self.workflows@, 0) == first_workflow_failure(
                    self.workflows@,
                    i as int,
                ),
            decreases self.workflows.len() - i,
        {
            match self.workflows[i].validate() {
                Err(e) => {
                    return Err(e);
                },
                Ok(()) => {},
            }
            i = i + 1;
        }
        Ok(())
    }
}

/// No step from `j` on fails exactly when each of them names a target.
pub proof fn lemma_step_failures(steps: Seq<Step>, j: int)
    requires
        0 <= j,
    ensures
        first_step_failure(steps, j) is None <==> forall|k: int|
            j <= k < steps.len() ==> #[trigger] steps[k].has_target(),
    decreases steps.len() - j,
{
    if j < steps.len() {
        lemma_step_failures(steps, j + 1);
        if first_step_failure(steps, j) is None {
            assert forall|k: int| j <= k < steps.len() implies #[trigger] steps[k].has_target() by {
                if k > j {
                    assert(j + 1 <= k);
                }
            }
        }
    }
}

/// A workflow is free of failures exactly when it is well formed.
pub proof fn lemma_workflow_failure(w: &Workflow)
    ensures
        w.failure() is None <==> w.well_formed(),
{
    lemma_first_repeat_distinct(w.step_ids());
    lemma_step_failures(w.steps@, 0);
}

/// No workflow from `j` on fails exactly when each of them is well formed.
pub proof fn lemma_workflow_failures(workflows: Seq<Workflow>, j: int)
    requires
        0 <= j,
    ensures
        first_workflow_failure(workflows, j) is None <==> forall|k: int|
            j <= k < workflows.len() ==> #[trigger] workflows[k].well_formed(),
    decreases workflows.len() - j,
{
    if j < workflows.len() {
        lemma_workflow_failures(workflows, j + 1);
        lemma_workflow_failure(&workflows[j]);
        if first_workflow_failure(workflows, j) is None {
            assert forall|k: int| j <= k < workflows.len() implies #[trigger] workflows[k].well_formed() by {
                if k > j {
                    assert(j + 1 <= k);
                } else {
                    lemma_workflow_failure(&workflows[k]);
                }
            }
        } else {
            if workflows[j].failure() is None {
                assert(first_workflow_failure(workflows, j) == first_workflow_failure(workflows, j + 1));
            }
        }
    }
}

/// A workflow passes validation exactly when its step identifiers are
/// unique and each step names an operation, an operation path or a
/// workflow to run.
pub proof fn law_workflow_validation_accepts_exactly_well_formed(w: &Workflow)
    ensures
        w.failure() is None <==> w.well_formed(),
{
    lemma_workflow_failure(w);
}

/// A document passes validation exactly when its Arazzo version is 1.x,
/// its workflow identifiers are unique, and each workflow is well formed.
pub proof fn law_validation_accepts_exactly_well_formed(spec: &ArazzoSpec)
    ensures
        spec.failure() is None <==> spec.well_formed(),
{
    lemma_first_repeat_distinct(spec.workflow_ids());
    lemma_workflow_failures(spec.workflows@, 0);
}

} // verus!
