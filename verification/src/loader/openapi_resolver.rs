//! The OpenAPI documents of a project, by source name, and the lookup of
//! operations across them.

use vstd::prelude::*;
use crate::loader::paths::{file_stem, file_stem_of};
use crate::models::openapi::{find_operation_in, first_operation_from, lemma_first_operation_bounds, HttpMethod, OpenApiV3Spec, Operation, PathItem};
use crate::text::{str_eq, to_uppercase, uppercase, views_of};

verus! {

/// A reference to an operation.
#[derive(Clone)]
pub struct OperationRef {
    pub source_name: String,
    pub method: String,
    pub path: String,
}

/// The OpenAPI documents of a project, each under its source name.
#[derive(Clone)]
pub struct OpenApiResolver {
    /// The project directory.
    pub project_dir: String,
    /// The documents with their names, each name once, in the order added.
    pub specs: Vec<(String, OpenApiV3Spec)>,
}

/// The position of the document named `name`, from `from` on.
pub open spec fn spec_index(specs: Seq<(String, OpenApiV3Spec)>, name: Seq<char>, from: int) -> Option<int>
    decreases specs.len() - from,
{
    if from < 0 || from >= specs.len() {
        None
    } else if specs[from].0@ == name {
        Some(from)
    } else {
        spec_index(specs, name, from + 1)
    }
}

/// A position found by `spec_index` lies in range.
pub proof fn lemma_spec_index(specs: Seq<(String, OpenApiV3Spec)>, name: Seq<char>, from: int)
    requires
        spec_index(specs, name, from) is Some,
    ensures
        from <= spec_index(specs, name, from).unwrap() < specs.len(),
    decreases specs.len() - from,
{
    if !(from < 0 || from >= specs.len()) && specs[from].0@ != name {
        lemma_spec_index(specs, name, from + 1);
    }
}

/// The methods searched, in order, when looking an operation up.
pub open spec fn resolver_methods() -> Seq<HttpMethod> {
    seq![
        HttpMethod::Get,
        HttpMethod::Post,
        HttpMethod::Put,
        HttpMethod::Delete,
        HttpMethod::Patch,
        HttpMethod::Options,
        HttpMethod::Head,
        HttpMethod::Trace,
    ]
}

/// Where the operation `id` is in a document: the path's position and the
/// method.
pub open spec fn operation_in(s: OpenApiV3Spec, id: Seq<char>) -> Option<(int, HttpMethod)> {
    match s.paths {
        Some(p) => first_operation_from(p@, resolver_methods(), id, 0),
        None => None,
    }
}

/// The first document, from `from` on, holding the operation `id`, with
/// where it is in that document.
pub open spec fn first_operation_hit(specs: Seq<(String, OpenApiV3Spec)>, id: Seq<char>, from: int) -> Option<(int, int, HttpMethod)>
    decreases specs.len() - from,
{
    if from < 0 || from >= specs.len() {
        None
    } else {
        match operation_in(specs[from].1, id) {
            Some((j, m)) => Some((from, j, m)),
            None => first_operation_hit(specs, id, from + 1),
        }
    }
}

/// A hit found by `first_operation_hit` lies in range.
pub proof fn lemma_first_operation_hit(specs: Seq<(String, OpenApiV3Spec)>, id: Seq<char>, from: int)
    requires
        first_operation_hit(specs, id, from) is Some,
    ensures
        from <= first_operation_hit(specs, id, from).unwrap().0 < specs.len(),
        operation_in(specs[first_operation_hit(specs, id, from).unwrap().0].1, id) == Some(
            (first_operation_hit(specs, id, from).unwrap().1, first_operation_hit(specs, id, from).unwrap().2),
        ),
    decreases specs.len() - from,
{
    if !(from < 0 || from >= specs.len()) && operation_in(specs[from].1, id) is None {
        lemma_first_operation_hit(specs, id, from + 1);
    }
}

/// `r` refers to the operation at hit `h`.
pub open spec fn refers_to_hit(r: OperationRef, specs: Seq<(String, OpenApiV3Spec)>, h: (int, int, HttpMethod)) -> bool {
    &&& r.source_name@ == specs[h.0].0@
    &&& r.method@ == h.2.spec_name()
    &&& r.path@ == specs[h.0].1.paths.unwrap()@[h.1].0@
}

/// The operation at hit `h`.
pub open spec fn hit_operation(specs: Seq<(String, OpenApiV3Spec)>, h: (int, int, HttpMethod)) -> Operation {
    specs[h.0].1.paths.unwrap()@[h.1].1.spec_operation(h.2).unwrap()
}

/// The position of the path `p` among `paths`, from `from` on.
pub open spec fn path_index(paths: Seq<(String, PathItem)>, p: Seq<char>, from: int) -> Option<int>
    decreases paths.len() - from,
{
    if from < 0 || from >= paths.len() {
        None
    } else if paths[from].0@ == p {
        Some(from)
    } else {
        path_index(paths, p, from + 1)
    }
}

/// A position found by `path_index` lies in range.
pub proof fn lemma_path_index(paths: Seq<(String, PathItem)>, p: Seq<char>, from: int)
    requires
        path_index(paths, p, from) is Some,
    ensures
        from <= path_index(paths, p, from).unwrap() < paths.len(),
    decreases paths.len() - from,
{
    if !(from < 0 || from >= paths.len()) && paths[from].0@ != p {
        lemma_path_index(paths, p, from + 1);
    }
}

/// The method an upper-case name stands for.
pub open spec fn method_named(m: Seq<char>) -> Option<HttpMethod> {
    if m == "GET"@ {
        Some(HttpMethod::Get)
    } else if m == "POST"@ {
        Some(HttpMethod::Post)
    } else if m == "PUT"@ {
        Some(HttpMethod::Put)
    } else if m == "DELETE"@ {
        Some(HttpMethod::Delete)
    } else if m == "PATCH"@ {
        Some(HttpMethod::Patch)
    } else if m == "OPTIONS"@ {
        Some(HttpMethod::Options)
    } else if m == "HEAD"@ {
        Some(HttpMethod::Head)
    } else if m == "TRACE"@ {
        Some(HttpMethod::Trace)
    } else {
        None
    }
}

/// The operation a document holds at the path `p` under the method named
/// `m`.
pub open spec fn operation_at(s: OpenApiV3Spec, p: Seq<char>, m: Seq<char>) -> Option<Operation> {
    match s.paths {
        Some(ps) => match path_index(ps@, p, 0) {
            Some(i) => match method_named(m) {
                Some(hm) => ps@[i].1.spec_operation(hm),
                None => None,
            },
            None => None,
        },
        None => None,
    }
}

/// The first document, from `from` on, holding an operation at the path
/// `p` under the method named `m`, with that operation.
pub open spec fn first_path_hit(specs: Seq<(String, OpenApiV3Spec)>, p: Seq<char>, m: Seq<char>, from: int) -> Option<(int, Operation)>
    decreases specs.len() - from,
{
    if from < 0 || from >= specs.len() {
        None
    } else {
        match operation_at(specs[from].1, p, m) {
            Some(op) => Some((from, op)),
            None => first_path_hit(specs, p, m, from + 1),
        }
    }
}

/// A hit found by `first_path_hit` lies in range.
pub proof fn lemma_first_path_hit(specs: Seq<(String, OpenApiV3Spec)>, p: Seq<char>, m: Seq<char>, from: int)
    requires
        first_path_hit(specs, p, m, from) is Some,
    ensures
        from <= first_path_hit(specs, p, m, from).unwrap().0 < specs.len(),
    decreases specs.len() - from,
{
    if !(from < 0 || from >= specs.len()) && operation_at(specs[from].1, p, m) is None {
        lemma_first_path_hit(specs, p, m, from + 1);
    }
}

/// The names of the documents, in order.
pub open spec fn spec_names(specs: Seq<(String, OpenApiV3Spec)>) -> Seq<Seq<char>> {
    specs.map_values(|e: (String, OpenApiV3Spec)| e.0@)
}

impl OpenApiResolver {
    /// A resolver of the project at `project_dir`, with no documents.
    pub fn new(project_dir: String) -> (r: Self)
        ensures
            r.project_dir@ == project_dir@,
            r.specs@.len() == 0,
    {
        OpenApiResolver { project_dir, specs: Vec::new() }
    }

    /// The position of the document named `name`.
    fn position(&self, name: &str) -> (r: Option<usize>)
        ensures
            match r {
                Some(i) => spec_index(self.specs@, name@, 0) == Some(i as int),
                None => spec_index(self.specs@, name@, 0) is None,
            },
    {
        let mut i: usize = 0;
        while i < self.specs.len()
            invariant
                i <= self.specs@.len(),
                spec_index(self.specs@, name@, 0) == spec_index(self.specs@, name@, i as int),
            decreases self.specs.len() - i,
        {
            if str_eq(self.specs[i].0.as_str(), name) {
                return Some(i);
            }
            i = i + 1;
        }
        None
    }

    /// Records a document under `name`, replacing the one of that name.
    pub fn insert_spec(&mut self, name: String, spec: OpenApiV3Spec)
        ensures
            final(self).project_dir == old(self).project_dir,
            final(self).specs@ == match spec_index(old(self).specs@, name@, 0) {
                Some(i) => old(self).specs@.update(i, (name, spec)),
                None => old(self).specs@.push((name, spec)),
            },
    {
        match self.position(name.as_str()) {
            Some(i) => {
                proof { lemma_spec_index(self.specs@, name@, 0); }
                self.specs.set(i, (name, spec));
            },
            None => {
                self.specs.push((name, spec));
            },
        }
    }

    /// The name a document gets from its path: the file name without its
    /// extension, or `default`.
    pub fn extract_name(&self, path: &str) -> (s: String)
        ensures
            s@ == match file_stem_of(path@) {
                Some(n) => n,
                None => "default"@,
            },
    {
        match file_stem(path) {
            Some(n) => n,
            None => String::from_str("default"),
        }
    }

    /// The document named `name`.
    pub fn get_spec(&self, name: &str) -> (r: Option<&OpenApiV3Spec>)
        ensures
            match r {
                Some(s) => spec_index(self.specs@, name@, 0) is Some && *s == self.specs@[spec_index(
                    self.specs@,
                    name@,
                    0,
                ).unwrap()].1,
                None => spec_index(self.specs@, name@, 0) is None,
            },
    {
        match self.position(name) {
            Some(i) => {
                proof { lemma_spec_index(self.specs@, name@, 0); }
                Some(&self.specs[i].1)
            },
            None => None,
        }
    }

    /// All documents with their names.
    pub fn get_all_specs(&self) -> (r: &Vec<(String, OpenApiV3Spec)>)
        ensures
            r@ == self.specs@,
    {
        &self.specs
    }

    /// The names of the documents.
    pub fn list_files(&self) -> (v: Vec<String>)
        ensures
            views_of(v@) == spec_names(self.specs@),
    {
        let mut v: Vec<String> = Vec::new();
        let mut i: usize = 0;
        while i < self.specs.len()
            invariant
                i <= self.specs@.len(),
                views_of(v@) == spec_names(self.specs@).subrange(0, i as int),
            decreases self.specs.len() - i,
        {
            let ghost before = v@;
            v.push(self.specs[i].0.clone());
            assert(views_of(v@) =~= views_of(before).push(self.specs@[i as int].0@));
            assert(views_of(v@) =~= spec_names(self.specs@).subrange(0, i + 1));
            i = i + 1;
        }
        assert(spec_names(self.specs@).subrange(0, i as int) =~= spec_names(self.specs@));
        v
    }

    /// Where the operation `id` is: the first document holding it, the
    /// first path there holding it under one of the searched methods, and
    /// that method.
    fn locate(&self, id: &str) -> (r: Option<(usize, usize, HttpMethod)>)
        ensures
            match r {
                Some((i, j, m)) => first_operation_hit(self.specs@, id@, 0) == Some((i as int, j as int, m)),
                None => first_operation_hit(self.specs@, id@, 0) is None,
            },
    {
        let methods = [
            HttpMethod::Get,
            HttpMethod::Post,
            HttpMethod::Put,
            HttpMethod::Delete,
            HttpMethod::Patch,
            HttpMethod::Options,
            HttpMethod::Head,
            HttpMethod::Trace,
        ];
        assert(methods@ =~= resolver_methods());
        let mut i: usize = 0;
        while i < self.specs.len()
            invariant
                i <= self.specs@.len(),
                methods@ == resolver_methods(),
                first_operation_hit(self.specs@, id@, 0) == first_operation_hit(self.specs@, id@, i as int),
            decreases self.specs.len() - i,
        {
            match &self.specs[i].1.paths {
                Some(paths) => match find_operation_in(paths, &methods, id) {
                    Some((j, m)) => {
                        return Some((i, j, m));
                    },
                    None => {},
                },
                None => {},
            }
            i = i + 1;
        }
        None
    }

    /// The first operation with this identifier across the documents.
    pub fn find_operation(&self, operation_id: &str) -> (r: Option<OperationRef>)
        ensures
            match r {
                Some(op) => first_operation_hit(self.specs@, operation_id@, 0) is Some && refers_to_hit(
                    op,
                    self.specs@,
                    first_operation_hit(self.specs@, operation_id@, 0).unwrap(),
                ),
                None => first_operation_hit(self.specs@, operation_id@, 0) is None,
            },
    {
        match self.locate(operation_id) {
            Some((i, j, m)) => {
                proof { lemma_first_operation_hit(self.specs@, operation_id@, 0); }
                let paths = match &self.specs[i].1.paths {
                    Some(p) => p,
                    None => {
                        return None;
                    },
                };
                proof { lemma_first_operation_bounds(paths@, resolver_methods(), operation_id@, 0); }
                Some(OperationRef { source_name: self.specs[i].0.clone(), method: m.name(), path: paths[j].0.clone() })
            },
            None => None,
        }
    }

    /// The first operation with this identifier across the documents,
    /// with the operation itself.
    pub fn find_operation_with_details(&self, operation_id: &str) -> (r: Option<(OperationRef, &Operation)>)
        ensures
            match r {
                Some((op, details)) => first_operation_hit(self.specs@, operation_id@, 0) is Some && refers_to_hit(
                    op,
                    self.specs@,
                    first_operation_hit(self.specs@, operation_id@, 0).unwrap(),
                ) && *details == hit_operation(self.specs@, first_operation_hit(self.specs@, operation_id@, 0).unwrap()),
                None => first_operation_hit(self.specs@, operation_id@, 0) is None,
            },
    {
        match self.locate(operation_id) {
            Some((i, j, m)) => {
                proof { lemma_first_operation_hit(self.specs@, operation_id@, 0); }
                let paths = match &self.specs[i].1.paths {
                    Some(p) => p,
                    None => {
                        return None;
                    },
                };
                proof { lemma_first_operation_bounds(paths@, resolver_methods(), operation_id@, 0); }
                let op = match paths[j].1.operation(m) {
                    Some(op) => op,
                    None => {
                        return None;
                    },
                };
                Some((OperationRef { source_name: self.specs[i].0.clone(), method: m.name(), path: paths[j].0.clone() }, op))
            },
            None => None,
        }
    }

    /// The position of the path `p` in a document's paths.
    fn path_position(paths: &Vec<(String, PathItem)>, p: &str) -> (r: Option<usize>)
        ensures
            match r {
                Some(i) => path_index(paths@, p@, 0) == Some(i as int),
                None => path_index(paths@, p@, 0) is None,
            },
    {
        let mut i: usize = 0;
        while i < paths.len()
            invariant
                i <= paths@.len(),
                path_index(paths@, p@, 0) == path_index(paths@, p@, i as int),
            decreases paths.len() - i,
        {
            if str_eq(paths[i].0.as_str(), p) {
                return Some(i);
            }
            i = i + 1;
        }
        None
    }

    /// The method an upper-case name stands for.
    fn method_of(m: &str) -> (r: Option<HttpMethod>)
        ensures
            r == method_named(m@),
    {
        if str_eq(m, "GET") {
            Some(HttpMethod::Get)
        } else if str_eq(m, "POST") {
            Some(HttpMethod::Post)
        } else if str_eq(m, "PUT") {
            Some(HttpMethod::Put)
        } else if str_eq(m, "DELETE") {
            Some(HttpMethod::Delete)
        } else if str_eq(m, "PATCH") {
            Some(HttpMethod::Patch)
        } else if str_eq(m, "OPTIONS") {
            Some(HttpMethod::Options)
        } else if str_eq(m, "HEAD") {
            Some(HttpMethod::Head)
        } else if str_eq(m, "TRACE") {
            Some(HttpMethod::Trace)
        } else {
            None
        }
    }

    /// The first document holding an operation at the path
    /// `operation_path` under `method` (upper-cased), with that operation.
    pub fn find_operation_by_path_with_details(&self, operation_path: &str, method: &str) -> (r: Option<(OperationRef, &Operation)>)
        ensures
            match r {
                Some((op, details)) => first_path_hit(self.specs@, operation_path@, uppercase(method@), 0) is Some
                    && op.source_name@ == self.specs@[first_path_hit(self.specs@, operation_path@, uppercase(method@), 0).unwrap().0].0@
                    && op.method@ == uppercase(method@)
                    && op.path@ == operation_path@
                    && *details == first_path_hit(self.specs@, operation_path@, uppercase(method@), 0).unwrap().1,
                None => first_path_hit(self.specs@, operation_path@, uppercase(method@), 0) is None,
            },
    {
        let method_upper = to_uppercase(method);
        let hm = Self::method_of(method_upper.as_str());
        let mut i: usize = 0;
        while i < self.specs.len()
            invariant
                i <= self.specs@.len(),
                method_upper@ == uppercase(method@),
                hm == method_named(method_upper@),
                first_path_hit(self.specs@, operation_path@, uppercase(method@), 0) == first_path_hit(
                    self.specs@,
                    operation_path@,
                    uppercase(method@),
                    i as int,
                ),
            decreases self.specs.len() - i,
        {
            match &self.specs[i].1.paths {
                Some(paths) => match Self::path_position(paths, operation_path) {
                    Some(k) => {
                        proof { lemma_path_index(paths@, operation_path@, 0); }
                        match hm {
                            Some(m) => match paths[k].1.operation(m) {
                                Some(op) => {
                                    let r = OperationRef {
                                        source_name: self.specs[i].0.clone(),
                                        method: method_upper,
                                        path: String::from_str(operation_path),
                                    };
                                    return Some((r, op));
                                },
                                None => {},
                            },
                            None => {},
                        }
                    },
                    None => {},
                },
                None => {},
            }
            i = i + 1;
        }
        None
    }
}

} // verus!
