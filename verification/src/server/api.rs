//! The decisions of the editor's HTTP API: which problem a request is
//! answered with, and what a successful answer holds. Loading and saving
//! projects, and the HTTP plumbing, stand around these.

use vstd::prelude::*;
use crate::graph::builder::{build_flow_graph, edge_views, node_for_step, workflow_edges};
use crate::graph::exporter::{export_json, graph_json};
use crate::graph::{copy_opt_string, FlowGraph};
use crate::json::JsonValue;
use crate::models::openapi::OpenApiV3Spec;
use crate::loader::openapi_resolver::{spec_names, OpenApiResolver};
use crate::models::arazzo::{ArazzoSpec, Workflow};
use crate::server::operations::{list_operations, operations_for, OperationsResponse};
use crate::text::{chars_of, contains, contains_char, first_capture, opt_view, regex_capture, seq_contains, str_eq, views_of};

verus! {

// ---------------------------------------------------------------- problems

/// A problem report (RFC 9457) for an HTTP API.
pub struct ProblemDetails {
    /// A URI reference that identifies the problem type.
    pub type_: String,
    /// A short summary of the problem type.
    pub title: String,
    /// The HTTP status code.
    pub status: u16,
    /// An explanation specific to this occurrence.
    pub detail: String,
    /// A URI reference that identifies this occurrence.
    pub instance: Option<String>,
}

/// The report holds this status, problem type, title and detail, and no
/// occurrence.
pub open spec fn problem(p: ProblemDetails, status: u16, suffix: Seq<char>, title: Seq<char>, detail: Seq<char>) -> bool {
    &&& p.type_@ == "https://hornet2.dev/problems/"@ + suffix
    &&& p.title@ == title
    &&& p.status == status
    &&& p.detail@ == detail
    &&& p.instance is None
}

impl ProblemDetails {
    /// A report of this status, with the problem type named by `type_suffix`.
    pub fn new(status: u16, type_suffix: &str, title: &str, detail: String) -> (p: Self)
        ensures
            problem(p, status, type_suffix@, title@, detail@),
    {
        let mut type_ = String::from_str("https://hornet2.dev/problems/");
        type_.append(type_suffix);
        ProblemDetails { type_, title: crate::text::owned(title), status, detail, instance: None }
    }

    /// The report with the occurrence set.
    pub fn with_instance(self, instance: String) -> (p: Self)
        ensures
            p.type_ == self.type_,
            p.title == self.title,
            p.status == self.status,
            p.detail == self.detail,
            p.instance == Some(instance),
    {
        ProblemDetails { instance: Some(instance), ..self }
    }
}

// ---------------------------------------------------------------- projects

/// A project name that names no other directory: no `..`, `/` or `\`.
pub open spec fn valid_project_name(name: Seq<char>) -> bool {
    !seq_contains(name, ".."@) && !name.contains('/') && !name.contains('\\')
}

/// The report for a project name that names another directory.
pub open spec fn invalid_name_problem(p: ProblemDetails) -> bool {
    problem(p, 400, "invalid-project-name"@, "Invalid Request"@, "Project name contains invalid characters"@)
}

/// The report for a project that could not be found, and why.
pub open spec fn not_found_problem(p: ProblemDetails, name: Seq<char>, reason: Seq<char>) -> bool {
    problem(p, 404, "project-not-found"@, "Project Not Found"@, "Project '"@ + name + "' not found: "@ + reason)
}

/// Refuses a project name that would name another directory.
pub fn check_project_name(name: &str) -> (r: Result<(), ProblemDetails>)
    ensures
        r is Ok <==> valid_project_name(name@),
        r matches Err(p) ==> invalid_name_problem(p),
{
    let c = chars_of(name);
    let dots = chars_of("..");
    proof { reveal_strlit(".."); }
    if contains(c.as_slice(), dots.as_slice()) || contains_char(c.as_slice(), '/') || contains_char(c.as_slice(), '\\') {
        return Err(
            ProblemDetails::new(400, "invalid-project-name", "Invalid Request", String::from_str("Project name contains invalid characters")),
        );
    }
    Ok(())
}

/// The report for a project that could not be found.
pub fn project_not_found(name: &str, reason: &str) -> (p: ProblemDetails)
    ensures
        not_found_problem(p, name@, reason@),
{
    let mut detail = String::from_str("Project '");
    detail.append(name);
    detail.append("' not found: ");
    detail.append(reason);
    ProblemDetails::new(404, "project-not-found", "Project Not Found", detail)
}

/// The answer to a request on a project: the name refused when it names
/// another directory, then the project looked up (`Err` holds why it was
/// not found).
pub open spec fn project_answer<T, U>(r: Result<U, ProblemDetails>, name: Seq<char>, project: Result<T, String>) -> bool {
    &&& !valid_project_name(name) ==> (r matches Err(p) && invalid_name_problem(p))
    &&& valid_project_name(name) ==> match project {
        Err(reason) => r matches Err(p) && not_found_problem(p, name, reason@),
        Ok(_) => r is Ok,
    }
}

/// The OpenAPI operations of a project, the name checked first.
pub fn get_project_operations(project_name: &str, project: Result<&OpenApiResolver, String>) -> (r: Result<OperationsResponse, ProblemDetails>)
    ensures
        project_answer(r, project_name@, project),
        r matches Ok(resp) ==> project matches Ok(res) && operations_for(resp.operations@, res.specs@),
{
    check_project_name(project_name)?;
    match project {
        Ok(res) => Ok(list_operations(res)),
        Err(reason) => Err(project_not_found(project_name, reason.as_str())),
    }
}

/// A project as listed.
pub struct ProjectInfo {
    pub name: String,
    pub title: String,
    pub description: Option<String>,
    pub workflow_count: usize,
    pub arazzo_path: String,
    pub openapi_files: Vec<String>,
}

/// The projects as listed.
pub struct ProjectsResponse {
    pub projects: Vec<ProjectInfo>,
}

/// A project in detail.
pub struct ProjectDetail {
    pub name: String,
    pub title: String,
    pub description: Option<String>,
    pub workflow_count: usize,
    pub openapi_files: Vec<String>,
}

/// Each name with a suffix.
pub open spec fn suffixed(names: Seq<Seq<char>>, prefix: Seq<char>, suffix: Seq<char>) -> Seq<Seq<char>> {
    names.map_values(|n: Seq<char>| prefix + n + suffix)
}

/// The file names, each as `prefix` + name + `.yaml`.
fn yaml_files(names: &Vec<String>, prefix: &str) -> (r: Vec<String>)
    ensures
        views_of(r@) == suffixed(views_of(names@), prefix@, ".yaml"@),
{
    let ghost want = suffixed(views_of(names@), prefix@, ".yaml"@);
    let mut r: Vec<String> = Vec::new();
    let mut i: usize = 0;
    while i < names.len()
        invariant
            i <= names@.len(),
            want == suffixed(views_of(names@), prefix@, ".yaml"@),
            views_of(r@) == want.subrange(0, i as int),
        decreases names.len() - i,
    {
        let mut f = crate::text::owned(prefix);
        f.append(names[i].as_str());
        f.append(".yaml");
        let ghost before = r@;
        r.push(f);
        assert(views_of(r@) =~= views_of(before).push(f@));
        assert(views_of(r@) =~= want.subrange(0, i + 1));
        i = i + 1;
    }
    assert(want.subrange(0, i as int) =~= want);
    r
}

/// A project as listed: its title and description, its number of
/// workflows, `name/arazzo.yaml`, and its documents as `name/file.yaml`.
pub fn project_info(name: &str, spec: &ArazzoSpec, resolver: &OpenApiResolver) -> (p: ProjectInfo)
    ensures
        p.name@ == name@,
        p.title@ == spec.info.title@,
        opt_view(p.description) == opt_view(spec.info.description),
        p.workflow_count == spec.workflows@.len(),
        p.arazzo_path@ == name@ + "/arazzo.yaml"@,
        views_of(p.openapi_files@) == suffixed(spec_names(resolver.specs@), name@ + "/"@, ".yaml"@),
{
    let mut arazzo_path = crate::text::owned(name);
    arazzo_path.append("/arazzo.yaml");
    let mut prefix = crate::text::owned(name);
    prefix.append("/");
    ProjectInfo {
        name: crate::text::owned(name),
        title: spec.info.title.clone(),
        description: copy_opt_string(&spec.info.description),
        workflow_count: spec.workflows.len(),
        arazzo_path,
        openapi_files: yaml_files(&resolver.list_files(), prefix.as_str()),
    }
}

/// A project in detail: its title and description, its number of
/// workflows, and its documents as `file.yaml`.
pub fn project_detail(name: &str, spec: &ArazzoSpec, resolver: &OpenApiResolver) -> (p: ProjectDetail)
    ensures
        p.name@ == name@,
        p.title@ == spec.info.title@,
        opt_view(p.description) == opt_view(spec.info.description),
        p.workflow_count == spec.workflows@.len(),
        views_of(p.openapi_files@) == suffixed(spec_names(resolver.specs@), Seq::empty(), ".yaml"@),
{
    proof { reveal_strlit(""); }
    assert(""@ =~= Seq::<char>::empty());
    ProjectDetail {
        name: crate::text::owned(name),
        title: spec.info.title.clone(),
        description: copy_opt_string(&spec.info.description),
        workflow_count: spec.workflows.len(),
        openapi_files: yaml_files(&resolver.list_files(), ""),
    }
}

// ---------------------------------------------------------------- workflows

/// A workflow as listed.
pub struct WorkflowInfo {
    pub workflow_id: String,
    pub title: Option<String>,
    pub description: Option<String>,
    pub steps: usize,
}

/// The workflows as listed.
pub struct WorkflowsResponse {
    pub workflows: Vec<WorkflowInfo>,
}

/// The listed form of a workflow: its summary as title.
pub open spec fn workflow_info_for(i: WorkflowInfo, w: Workflow) -> bool {
    &&& i.workflow_id@ == w.workflow_id@
    &&& opt_view(i.title) == opt_view(w.summary)
    &&& opt_view(i.description) == opt_view(w.description)
    &&& i.steps == w.steps@.len()
}

/// The workflows of a document as listed, in order.
pub fn workflow_infos(spec: &ArazzoSpec) -> (r: WorkflowsResponse)
    ensures
        r.workflows@.len() == spec.workflows@.len(),
        forall|i: int| 0 <= i < spec.workflows@.len() ==> workflow_info_for(#[trigger] r.workflows@[i], spec.workflows@[i]),
{
    let mut ws: Vec<WorkflowInfo> = Vec::new();
    let mut i: usize = 0;
    while i < spec.workflows.len()
        invariant
            i <= spec.workflows@.len(),
            ws@.len() == i,
            forall|k: int| 0 <= k < i ==> workflow_info_for(#[trigger] ws@[k], spec.workflows@[k]),
        decreases spec.workflows.len() - i,
    {
        let w = &spec.workflows[i];
        ws.push(WorkflowInfo {
            workflow_id: w.workflow_id.clone(),
            title: copy_opt_string(&w.summary),
            description: copy_opt_string(&w.description),
            steps: w.steps.len(),
        });
        i = i + 1;
    }
    WorkflowsResponse { workflows: ws }
}


/// The position of the first workflow with this identifier, from `from` on.
pub open spec fn workflow_index(ws: Seq<Workflow>, id: Seq<char>, from: int) -> Option<int>
    decreases ws.len() - from,
{
    if from < 0 || from >= ws.len() {
        None
    } else if ws[from].workflow_id@ == id {
        Some(from)
    } else {
        workflow_index(ws, id, from + 1)
    }
}

/// A position found by `workflow_index` lies in range.
proof fn lemma_workflow_index(ws: Seq<Workflow>, id: Seq<char>, from: int)
    requires
        workflow_index(ws, id, from) is Some,
    ensures
        from <= workflow_index(ws, id, from).unwrap() < ws.len(),
        ws[workflow_index(ws, id, from).unwrap()].workflow_id@ == id,
    decreases ws.len() - from,
{
    if !(from < 0 || from >= ws.len()) && ws[from].workflow_id@ != id {
        lemma_workflow_index(ws, id, from + 1);
    }
}

/// The report for a workflow that is not there.
pub open spec fn workflow_not_found_problem(p: ProblemDetails, id: Seq<char>) -> bool {
    problem(p, 404, "workflow-not-found"@, "Resource Not Found"@, "Workflow '"@ + id + "' not found"@)
}

/// The report for a workflow not found.
fn workflow_not_found(id: &str) -> (p: ProblemDetails)
    ensures
        workflow_not_found_problem(p, id@),
{
    let mut detail = String::from_str("Workflow '");
    detail.append(id);
    detail.append("' not found");
    ProblemDetails::new(404, "workflow-not-found", "Resource Not Found", detail)
}

/// The position of the first workflow with this identifier.
fn position_of(ws: &Vec<Workflow>, id: &str) -> (r: Option<usize>)
    ensures
        match r {
            Some(i) => workflow_index(ws@, id@, 0) == Some(i as int) && i < ws@.len(),
            None => workflow_index(ws@, id@, 0) is None,
        },
{
    let mut i: usize = 0;
    while i < ws.len()
        invariant
            i <= ws@.len(),
            workflow_index(ws@, id@, 0) == workflow_index(ws@, id@, i as int),
        decreases ws.len() - i,
    {
        if str_eq(ws[i].workflow_id.as_str(), id) {
            return Some(i);
        }
        i = i + 1;
    }
    None
}

/// The first workflow with this identifier.
pub fn find_workflow<'a>(spec: &'a ArazzoSpec, workflow_id: &str) -> (r: Result<&'a Workflow, ProblemDetails>)
    ensures
        match r {
            Ok(w) => workflow_index(spec.workflows@, workflow_id@, 0) matches Some(i) && *w == spec.workflows@[i],
            Err(p) => workflow_index(spec.workflows@, workflow_id@, 0) is None && workflow_not_found_problem(p, workflow_id@),
        },
{
    match position_of(&spec.workflows, workflow_id) {
        Some(i) => Ok(&spec.workflows[i]),
        None => Err(workflow_not_found(workflow_id)),
    }
}

/// The document holds the same parts as `before` but for its workflows.
pub open spec fn same_but_workflows(after: ArazzoSpec, before: ArazzoSpec) -> bool {
    &&& after.arazzo == before.arazzo
    &&& after.info == before.info
    &&& after.source_descriptions == before.source_descriptions
    &&& after.components == before.components
}

/// Adds a workflow at the end, unless one with its identifier is there.
pub fn add_workflow(spec: &mut ArazzoSpec, workflow: Workflow) -> (r: Result<(), ProblemDetails>)
    ensures
        same_but_workflows(*final(spec), *old(spec)),
        match workflow_index(old(spec).workflows@, workflow.workflow_id@, 0) {
            Some(_) => r matches Err(p) && problem(
                p,
                409,
                "workflow-exists"@,
                "Resource Already Exists"@,
                "Workflow with ID '"@ + workflow.workflow_id@ + "' already exists"@,
            ) && final(spec).workflows@ == old(spec).workflows@,
            None => r is Ok && final(spec).workflows@ == old(spec).workflows@.push(workflow),
        },
{
    match position_of(&spec.workflows, workflow.workflow_id.as_str()) {
        Some(_) => {
            let mut detail = String::from_str("Workflow with ID '");
            detail.append(workflow.workflow_id.as_str());
            detail.append("' already exists");
            Err(ProblemDetails::new(409, "workflow-exists", "Resource Already Exists", detail))
        },
        None => {
            spec.workflows.push(workflow);
            Ok(())
        },
    }
}

/// Refuses a workflow whose identifier is not the one in the request path.
pub fn check_workflow_id(path_id: &str, workflow: &Workflow) -> (r: Result<(), ProblemDetails>)
    ensures
        r is Ok <==> path_id@ == workflow.workflow_id@,
        r matches Err(p) ==> problem(
            p,
            400,
            "workflow-id-mismatch"@,
            "Invalid Request"@,
            "Workflow ID in path ("@ + path_id@ + ") does not match workflow ID in body ("@ + workflow.workflow_id@ + ")"@,
        ),
{
    if !str_eq(path_id, workflow.workflow_id.as_str()) {
        let mut detail = String::from_str("Workflow ID in path (");
        detail.append(path_id);
        detail.append(") does not match workflow ID in body (");
        detail.append(workflow.workflow_id.as_str());
        detail.append(")");
        return Err(ProblemDetails::new(400, "workflow-id-mismatch", "Invalid Request", detail));
    }
    Ok(())
}

/// Puts `workflow` in place of the first workflow with identifier
/// `workflow_id`.
pub fn replace_workflow(spec: &mut ArazzoSpec, workflow_id: &str, workflow: Workflow) -> (r: Result<(), ProblemDetails>)
    ensures
        same_but_workflows(*final(spec), *old(spec)),
        match workflow_index(old(spec).workflows@, workflow_id@, 0) {
            Some(i) => r is Ok && final(spec).workflows@ == old(spec).workflows@.update(i, workflow),
            None => r matches Err(p) && workflow_not_found_problem(p, workflow_id@) && final(spec).workflows@ == old(spec).workflows@,
        },
{
    match position_of(&spec.workflows, workflow_id) {
        Some(i) => {
            spec.workflows.set(i, workflow);
            Ok(())
        },
        None => Err(workflow_not_found(workflow_id)),
    }
}

/// The workflows among the first `n` whose identifier is not `id`.
pub open spec fn kept_workflows(ws: Seq<Workflow>, id: Seq<char>, n: int) -> Seq<Workflow>
    decreases n,
{
    if n <= 0 || n > ws.len() {
        Seq::empty()
    } else if ws[n - 1].workflow_id@ == id {
        kept_workflows(ws, id, n - 1)
    } else {
        kept_workflows(ws, id, n - 1).push(ws[n - 1])
    }
}

/// Keeping all workflows means none has the identifier.
proof fn lemma_kept_all(ws: Seq<Workflow>, id: Seq<char>, n: int)
    requires
        0 <= n <= ws.len(),
    ensures
        kept_workflows(ws, id, n).len() <= n,
        kept_workflows(ws, id, n).len() == n <==> workflow_index(ws.subrange(0, n), id, 0) is None,
    decreases n,
{
    if n > 0 {
        lemma_kept_all(ws, id, n - 1);
        let pre = ws.subrange(0, n - 1);
        let cur = ws.subrange(0, n);
        lemma_index_prefix(cur, id, 0, n - 1);
        assert(pre =~= cur.subrange(0, n - 1));
    } else {
        assert(workflow_index(ws.subrange(0, 0), id, 0) is None);
    }
}

/// The first match in `ws` is the first match in its first `m` entries,
/// or, when there is none there, whether entry `m` matches decides.
proof fn lemma_index_prefix(ws: Seq<Workflow>, id: Seq<char>, from: int, m: int)
    requires
        0 <= from <= m,
        m == ws.len() - 1,
    ensures
        workflow_index(ws, id, from) is None <==> (workflow_index(ws.subrange(0, m), id, from) is None && ws[m].workflow_id@ != id),
    decreases m - from,
{
    if from < m {
        lemma_index_prefix(ws, id, from + 1, m);
        assert(ws.subrange(0, m)[from] == ws[from]);
    } else {
        assert(workflow_index(ws, id, m + 1) is None);
        assert(workflow_index(ws.subrange(0, m), id, m) is None);
    }
}

/// Where no workflow from `from` on has the identifier, none is found.
proof fn lemma_index_absent(ws: Seq<Workflow>, id: Seq<char>, from: int)
    requires
        0 <= from,
        forall|j: int| from <= j < ws.len() ==> ws[j].workflow_id@ != id,
    ensures
        workflow_index(ws, id, from) is None,
    decreases ws.len() - from,
{
    if from < ws.len() {
        lemma_index_absent(ws, id, from + 1);
    }
}

/// The first workflow with the identifier from `from` on is the one found.
proof fn lemma_index_at(ws: Seq<Workflow>, id: Seq<char>, i: int, from: int)
    requires
        0 <= from <= i < ws.len(),
        ws[i].workflow_id@ == id,
        forall|j: int| from <= j < i ==> ws[j].workflow_id@ != id,
    ensures
        workflow_index(ws, id, from) == Some(i),
    decreases i - from,
{
    if from < i {
        lemma_index_at(ws, id, i, from + 1);
    }
}

/// What is found from `from` on is found first.
proof fn lemma_index_first(ws: Seq<Workflow>, id: Seq<char>, from: int)
    requires
        0 <= from,
    ensures
        workflow_index(ws, id, from) matches Some(i) ==> forall|j: int| from <= j < i ==> ws[j].workflow_id@ != id,
        workflow_index(ws, id, from) is None ==> forall|j: int| from <= j < ws.len() ==> ws[j].workflow_id@ != id,
    decreases ws.len() - from,
{
    if from < ws.len() && ws[from].workflow_id@ != id {
        lemma_index_first(ws, id, from + 1);
    }
}

/// The workflows kept are those of the first `n` without the identifier.
proof fn lemma_kept_members(ws: Seq<Workflow>, id: Seq<char>, n: int)
    requires
        0 <= n <= ws.len(),
    ensures
        forall|w: Workflow| kept_workflows(ws, id, n).contains(w) <==> (ws.subrange(0, n).contains(w)
            && w.workflow_id@ != id),
    decreases n,
{
    if n > 0 {
        lemma_kept_members(ws, id, n - 1);
        let pre = ws.subrange(0, n - 1);
        let cur = ws.subrange(0, n);
        assert(cur =~= pre.push(ws[n - 1]));
        assert forall|w: Workflow| kept_workflows(ws, id, n).contains(w) <==> (cur.contains(w) && w.workflow_id@
            != id) by {
            let k = kept_workflows(ws, id, n - 1);
            assert(kept_workflows(ws, id, n) == if ws[n - 1].workflow_id@ == id {
                k
            } else {
                k.push(ws[n - 1])
            });
            if cur.contains(w) && w.workflow_id@ != id {
                let j = choose|j: int| 0 <= j < cur.len() && cur[j] == w;
                if j < n - 1 {
                    assert(pre[j] == w);
                    assert(pre.contains(w));
                    assert(k.contains(w));
                    if ws[n - 1].workflow_id@ != id {
                        let q = choose|q: int| 0 <= q < k.len() && k[q] == w;
                        assert(k.push(ws[n - 1])[q] == w);
                    }
                } else if ws[n - 1].workflow_id@ != id {
                    assert(k.push(ws[n - 1])[k.len() as int] == w);
                }
            }
            if kept_workflows(ws, id, n).contains(w) {
                if ws[n - 1].workflow_id@ != id {
                    let kk = k.push(ws[n - 1]);
                    let j = choose|j: int| 0 <= j < kk.len() && kk[j] == w;
                    if j < k.len() {
                        assert(k[j] == w);
                        assert(k.contains(w));
                        assert(pre.contains(w));
                        let q = choose|q: int| 0 <= q < pre.len() && pre[q] == w;
                        assert(cur[q] == w);
                    } else {
                        assert(cur[n - 1] == w);
                    }
                } else {
                    assert(k.contains(w));
                    assert(pre.contains(w));
                    let q = choose|q: int| 0 <= q < pre.len() && pre[q] == w;
                    assert(cur[q] == w);
                }
            }
        }
    } else {
        assert(ws.subrange(0, 0) =~= Seq::<Workflow>::empty());
    }
}

/// A workflow just added is the one found under its identifier.
pub proof fn law_added_workflow_is_found(ws: Seq<Workflow>, w: Workflow)
    requires
        workflow_index(ws, w.workflow_id@, 0) is None,
    ensures
        workflow_index(ws.push(w), w.workflow_id@, 0) == Some(ws.len() as int),
{
    lemma_index_first(ws, w.workflow_id@, 0);
    lemma_index_at(ws.push(w), w.workflow_id@, ws.len() as int, 0);
}

/// A workflow put in place of the one with its identifier is the one found
/// under it, at the same position.
pub proof fn law_replaced_workflow_is_found(ws: Seq<Workflow>, i: int, w: Workflow)
    requires
        workflow_index(ws, w.workflow_id@, 0) == Some(i),
    ensures
        workflow_index(ws.update(i, w), w.workflow_id@, 0) == Some(i),
{
    lemma_workflow_index(ws, w.workflow_id@, 0);
    lemma_index_first(ws, w.workflow_id@, 0);
    lemma_index_at(ws.update(i, w), w.workflow_id@, i, 0);
}

/// Once removed, no workflow with the identifier is found, and every other
/// workflow stays.
pub proof fn law_removed_workflow_is_gone(ws: Seq<Workflow>, id: Seq<char>)
    ensures
        workflow_index(kept_workflows(ws, id, ws.len() as int), id, 0) is None,
        forall|w: Workflow| kept_workflows(ws, id, ws.len() as int).contains(w) <==> (ws.contains(w)
            && w.workflow_id@ != id),
{
    lemma_kept_members(ws, id, ws.len() as int);
    assert(ws.subrange(0, ws.len() as int) =~= ws);
    let k = kept_workflows(ws, id, ws.len() as int);
    assert forall|j: int| 0 <= j < k.len() implies k[j].workflow_id@ != id by {
        assert(k.contains(k[j]));
    }
    lemma_index_absent(k, id, 0);
}

/// Removes every workflow with identifier `workflow_id`; refused when there
/// was none.
pub fn remove_workflow(spec: &mut ArazzoSpec, workflow_id: &str) -> (r: Result<(), ProblemDetails>)
    ensures
        same_but_workflows(*final(spec), *old(spec)),
        final(spec).workflows@ == kept_workflows(old(spec).workflows@, workflow_id@, old(spec).workflows@.len() as int),
        r is Ok <==> workflow_index(old(spec).workflows@, workflow_id@, 0) is Some,
        r matches Err(p) ==> workflow_not_found_problem(p, workflow_id@),
{
    let ghost orig = spec.workflows@;
    let initial_len = spec.workflows.len();
    let mut rest: Vec<Workflow> = Vec::new();
    std::mem::swap(&mut rest, &mut spec.workflows);
    let mut n: usize = 0;
    assert(orig.subrange(0, orig.len() as int) =~= orig);
    while rest.len() > 0
        invariant
            n + rest@.len() == orig.len(),
            initial_len == orig.len(),
            rest@ == orig.subrange(n as int, orig.len() as int),
            spec.workflows@ == kept_workflows(orig, workflow_id@, n as int),
            same_but_workflows(*spec, *old(spec)),
            orig == old(spec).workflows@,
        decreases rest.len(),
    {
        let w = rest.remove(0);
        assert(w == orig[n as int]);
        assert(rest@ =~= orig.subrange(n + 1, orig.len() as int));
        if !str_eq(w.workflow_id.as_str(), workflow_id) {
            spec.workflows.push(w);
        }
        n = n + 1;
    }
    proof {
        lemma_kept_all(orig, workflow_id@, orig.len() as int);
    }
    if spec.workflows.len() == initial_len {
        return Err(workflow_not_found(workflow_id));
    }
    Ok(())
}


// ---------------------------------------------------------------- graphs

/// The flow graph built for a workflow.
pub open spec fn graph_of_workflow(g: FlowGraph, w: Workflow, openapi: Option<&OpenApiV3Spec>) -> bool {
    &&& g.wf()
    &&& g.workflow_id == w.workflow_id
    &&& g.nodes().len() == w.steps@.len()
    &&& forall|i: int| 0 <= i < g.nodes().len() ==> #[trigger] node_for_step(g.nodes()[i], w.steps@[i], openapi)
    &&& edge_views(g) == workflow_edges(w.steps@)
}

/// The flow graph of the first workflow with this identifier, as JSON.
pub fn workflow_graph(spec: &ArazzoSpec, workflow_id: &str, openapi: Option<&OpenApiV3Spec>) -> (r: Result<JsonValue, ProblemDetails>)
    requires
        forall|i: int| 0 <= i < spec.workflows@.len() ==> (#[trigger] spec.workflows@[i]).steps@.len() < 0x7fff_fff0,
    ensures
        match workflow_index(spec.workflows@, workflow_id@, 0) {
            Some(i) => r matches Ok(j) && exists|g: FlowGraph| graph_of_workflow(g, spec.workflows@[i], openapi) && #[trigger] graph_json(g) == j@,
            None => r matches Err(p) && workflow_not_found_problem(p, workflow_id@),
        },
{
    let w = find_workflow(spec, workflow_id)?;
    proof {
        lemma_workflow_index(spec.workflows@, workflow_id@, 0);
    }
    match build_flow_graph(w, openapi) {
        Ok(g) => match export_json(&g) {
            Ok(j) => {
                assert(graph_of_workflow(g, *w, openapi) && graph_json(g) == j@);
                Ok(j)
            },
            Err(e) => {
                let mut detail = String::from_str("Failed to export graph to JSON: ");
                detail.append(e.message().as_str());
                Err(ProblemDetails::new(500, "graph-export-failed", "Graph Export Failed", detail))
            },
        },
        Err(e) => {
            let mut detail = String::from_str("Failed to build workflow graph: ");
            detail.append(e.message().as_str());
            Err(ProblemDetails::new(500, "graph-build-failed", "Graph Build Failed", detail))
        },
    }
}

// ---------------------------------------------------------------- validation reports

/// A request to validate an Arazzo document.
pub struct ValidateRequest {
    pub yaml: String,
}

/// A problem found in a document, with where it is when known.
pub struct ValidationErrorInfo {
    pub message: String,
    pub line: Option<usize>,
    pub column: Option<usize>,
}

/// The outcome of validating a document.
pub struct ValidateResponse {
    pub valid: bool,
    pub errors: Vec<ValidationErrorInfo>,
}

/// Some step before position `j` has the identifier of step `j`.
pub open spec fn repeated_step(w: Workflow, j: int) -> bool {
    exists|k: int| 0 <= k < j && (#[trigger] w.steps@[k]).step_id@ == w.steps@[j].step_id@
}

/// The messages for the steps among the first `n` whose identifier was
/// used by an earlier step.
pub open spec fn duplicate_messages(w: Workflow, n: int) -> Seq<Seq<char>>
    decreases n,
{
    if n <= 0 || n > w.steps@.len() {
        Seq::empty()
    } else if repeated_step(w, n - 1) {
        duplicate_messages(w, n - 1).push(
            "Duplicate step ID '"@ + w.steps@[n - 1].step_id@ + "' in workflow '"@ + w.workflow_id@ + "'"@,
        )
    } else {
        duplicate_messages(w, n - 1)
    }
}

/// The messages for one workflow: no steps, then each repeated step.
pub open spec fn workflow_messages(w: Workflow) -> Seq<Seq<char>> {
    let none = if w.steps@.len() == 0 {
        seq!["Workflow '"@ + w.workflow_id@ + "' must have at least one step"@]
    } else {
        Seq::empty()
    };
    none + duplicate_messages(w, w.steps@.len() as int)
}

/// The messages for the first `n` workflows.
pub open spec fn workflows_messages(ws: Seq<Workflow>, n: int) -> Seq<Seq<char>>
    decreases n,
{
    if n <= 0 || n > ws.len() {
        Seq::empty()
    } else {
        workflows_messages(ws, n - 1) + workflow_messages(ws[n - 1])
    }
}

/// The messages for a document: no workflows, then each workflow's.
pub open spec fn validation_messages(spec: ArazzoSpec) -> Seq<Seq<char>> {
    let none = if spec.workflows@.len() == 0 {
        seq!["At least one workflow is required"@]
    } else {
        Seq::empty()
    };
    none + workflows_messages(spec.workflows@, spec.workflows@.len() as int)
}

/// The report holds these messages, with no places.
pub open spec fn report_of(r: ValidateResponse, msgs: Seq<Seq<char>>) -> bool {
    &&& r.valid == (msgs.len() == 0)
    &&& r.errors@.len() == msgs.len()
    &&& forall|i: int| 0 <= i < msgs.len() ==> {
        &&& (#[trigger] r.errors@[i]).message@ == msgs[i]
        &&& r.errors@[i].line is None
        &&& r.errors@[i].column is None
    }
}

/// Adds a message with no place.
fn push_message(errors: &mut Vec<ValidationErrorInfo>, message: String)
    ensures
        final(errors)@ == old(errors)@.push(ValidationErrorInfo { message, line: None, column: None }),
{
    errors.push(ValidationErrorInfo { message, line: None, column: None });
}

/// Whether a step before position `j` has the identifier of step `j`.
fn is_repeated_step(w: &Workflow, j: usize) -> (r: bool)
    requires
        j < w.steps@.len(),
    ensures
        r == repeated_step(*w, j as int),
{
    let mut k: usize = 0;
    while k < j
        invariant
            k <= j < w.steps@.len(),
            forall|q: int| 0 <= q < k ==> (#[trigger] w.steps@[q]).step_id@ != w.steps@[j as int].step_id@,
        decreases j - k,
    {
        if str_eq(w.steps[k].step_id.as_str(), w.steps[j].step_id.as_str()) {
            return true;
        }
        k = k + 1;
    }
    false
}

/// The validation report of a parsed document: at least one workflow, at
/// least one step in each, and no step identifier used twice in a workflow.
pub fn validation_report(spec: &ArazzoSpec) -> (r: ValidateResponse)
    ensures
        report_of(r, validation_messages(*spec)),
{
    let ghost msgs = validation_messages(*spec);
    let mut errors: Vec<ValidationErrorInfo> = Vec::new();
    let ghost mut done: Seq<Seq<char>> = Seq::empty();
    if spec.workflows.len() == 0 {
        push_message(&mut errors, String::from_str("At least one workflow is required"));
        proof { done = seq!["At least one workflow is required"@]; }
    }
    let mut i: usize = 0;
    while i < spec.workflows.len()
        invariant
            i <= spec.workflows@.len(),
            done == (if spec.workflows@.len() == 0 { seq!["At least one workflow is required"@] } else { Seq::<Seq<char>>::empty() })
                + workflows_messages(spec.workflows@, i as int),
            errors@.len() == done.len(),
            forall|q: int| 0 <= q < done.len() ==> {
                &&& (#[trigger] errors@[q]).message@ == done[q]
                &&& errors@[q].line is None
                &&& errors@[q].column is None
            },
        decreases spec.workflows.len() - i,
    {
        let w = &spec.workflows[i];
        let ghost before = done;
        if w.steps.len() == 0 {
            let mut m = String::from_str("Workflow '");
            m.append(w.workflow_id.as_str());
            m.append("' must have at least one step");
            push_message(&mut errors, m);
            proof { done = done.push(m@); }
        }
        let mut j: usize = 0;
        while j < w.steps.len()
            invariant
                i < spec.workflows@.len(),
                *w == spec.workflows@[i as int],
                j <= w.steps@.len(),
                done == before + (if w.steps@.len() == 0 {
                    seq!["Workflow '"@ + w.workflow_id@ + "' must have at least one step"@]
                } else {
                    Seq::<Seq<char>>::empty()
                }) + duplicate_messages(*w, j as int),
                errors@.len() == done.len(),
                forall|q: int| 0 <= q < done.len() ==> {
                    &&& (#[trigger] errors@[q]).message@ == done[q]
                    &&& errors@[q].line is None
                    &&& errors@[q].column is None
                },
            decreases w.steps.len() - j,
        {
            if is_repeated_step(w, j) {
                let mut m = String::from_str("Duplicate step ID '");
                m.append(w.steps[j].step_id.as_str());
                m.append("' in workflow '");
                m.append(w.workflow_id.as_str());
                m.append("'");
                push_message(&mut errors, m);
                proof { done = done.push(m@); }
            }
            j = j + 1;
        }
        assert(done =~= before + workflow_messages(*w));
        assert(workflows_messages(spec.workflows@, i + 1) == workflows_messages(spec.workflows@, i as int) + workflow_messages(*w));
        assert(done =~= (if spec.workflows@.len() == 0 { seq!["At least one workflow is required"@] } else { Seq::<Seq<char>>::empty() })
            + workflows_messages(spec.workflows@, i + 1));
        i = i + 1;
    }
    ValidateResponse { valid: errors.len() == 0, errors }
}

// ---------------------------------------------------------------- places in parse errors

/// The value of a text of decimal digits.
pub open spec fn digits_value(s: Seq<char>) -> nat
    decreases s.len(),
{
    if s.len() == 0 {
        0
    } else {
        digits_value(s.drop_last()) * 10 + (s.last() as nat - '0' as nat) as nat
    }
}

/// Every character is an ASCII digit.
pub open spec fn decimal_digits(s: Seq<char>) -> bool {
    forall|k: int| 0 <= k < s.len() ==> '0' <= #[trigger] s[k] <= '9'
}

/// The `usize` that a text reads as: an optional `+`, then decimal digits
/// whose value fits.
pub open spec fn parsed_usize(s: Seq<char>) -> Option<usize> {
    let d = if s.len() > 0 && s[0] == '+' {
        s.drop_first()
    } else {
        s
    };
    if d.len() > 0 && decimal_digits(d) && digits_value(d) <= usize::MAX {
        Some(digits_value(d) as usize)
    } else {
        None
    }
}

/// A longer text of digits is worth at least as much.
pub proof fn lemma_digits_grow(s: Seq<char>, i: int)
    requires
        0 <= i <= s.len(),
        decimal_digits(s),
    ensures
        digits_value(s.subrange(0, i)) <= digits_value(s),
    decreases s.len() - i,
{
    if i < s.len() {
        lemma_digits_grow(s, i + 1);
        let t = s.subrange(0, i + 1);
        assert(t.drop_last() =~= s.subrange(0, i));
        assert('0' <= s[i] <= '9');
    } else {
        assert(s.subrange(0, i) =~= s);
    }
}

/// The `usize` that a text reads as, as `str::parse` reads it.
pub fn parse_usize(s: &str) -> (r: Option<usize>)
    ensures
        r == parsed_usize(s@),
{
    let c = chars_of(s);
    let start: usize = if c.len() > 0 && c[0] == '+' { 1 } else { 0 };
    let ghost d = if s@.len() > 0 && s@[0] == '+' { s@.drop_first() } else { s@ };
    assert(d =~= c@.subrange(start as int, c@.len() as int));
    if start >= c.len() {
        return None;
    }
    let mut acc: usize = 0;
    let mut i: usize = start;
    while i < c.len()
        invariant
            start <= i <= c@.len(),
            c@ == s@,
            d == (if s@.len() > 0 && s@[0] == '+' { s@.drop_first() } else { s@ }),
            d == c@.subrange(start as int, c@.len() as int),
            decimal_digits(d.subrange(0, i - start)),
            acc == digits_value(d.subrange(0, i - start)),
        decreases c.len() - i,
    {
        let ch = c[i];
        assert(d[i - start] == ch);
        if !('0' <= ch && ch <= '9') {
            assert(!decimal_digits(d));
            return None;
        }
        let ghost t = d.subrange(0, i - start + 1);
        assert(t.drop_last() =~= d.subrange(0, i - start));
        assert(t.last() == ch);
        let digit = ((ch as u32) - ('0' as u32)) as usize;
        match acc.checked_mul(10) {
            Some(a) => match a.checked_add(digit) {
                Some(b) => {
                    acc = b;
                },
                None => {
                    proof { lemma_value_exceeds(d, t, i - start + 1); }
                    return None;
                },
            },
            None => {
                proof { lemma_value_exceeds(d, t, i - start + 1); }
                return None;
            },
        }
        i = i + 1;
    }
    assert(d.subrange(0, i - start) =~= d);
    Some(acc)
}

/// When a prefix of a text of digits is worth more than `usize::MAX`, so
/// is the text, or it is not all digits.
proof fn lemma_value_exceeds(d: Seq<char>, t: Seq<char>, n: int)
    requires
        0 < n <= d.len(),
        t == d.subrange(0, n),
        digits_value(t) > usize::MAX,
    ensures
        !(decimal_digits(d) && digits_value(d) <= usize::MAX),
{
    if decimal_digits(d) {
        lemma_digits_grow(d, n);
    }
}

/// The line and column that capture texts read as.
pub open spec fn opt_parsed(o: Option<Seq<char>>) -> Option<usize> {
    match o {
        Some(t) => parsed_usize(t),
        None => None,
    }
}

/// The line and column read from the captured texts.
pub fn location_from_captures(line: Option<String>, column: Option<String>) -> (r: (Option<usize>, Option<usize>))
    ensures
        r.0 == opt_parsed(opt_view(line)),
        r.1 == opt_parsed(opt_view(column)),
{
    let l = match &line {
        Some(t) => parse_usize(t.as_str()),
        None => None,
    };
    let c = match &column {
        Some(t) => parse_usize(t.as_str()),
        None => None,
    };
    (l, c)
}

/// The line and column that a parser's error message names, as
/// `line N` and `column N`.
pub fn extract_location_from_error(error: &str) -> (r: (Option<usize>, Option<usize>))
    ensures
        r.0 == opt_parsed(regex_capture("line (\\d+)"@, error@)),
        r.1 == opt_parsed(regex_capture("column (\\d+)"@, error@)),
{
    let line = first_capture("line (\\d+)", error);
    let column = first_capture("column (\\d+)", error);
    location_from_captures(line, column)
}

/// The report for a document that did not parse: the parser's message,
/// with the line and column it names.
pub fn parse_error_report(message: String) -> (r: ValidateResponse)
    ensures
        !r.valid,
        r.errors@.len() == 1,
        r.errors@[0].message == message,
        r.errors@[0].line == opt_parsed(regex_capture("line (\\d+)"@, message@)),
        r.errors@[0].column == opt_parsed(regex_capture("column (\\d+)"@, message@)),
{
    let (line, column) = extract_location_from_error(message.as_str());
    ValidateResponse { valid: false, errors: vec![ValidationErrorInfo { message, line, column }] }
}

} // verus!
