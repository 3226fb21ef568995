//! Projects: directories holding an Arazzo document and the OpenAPI
//! documents its source descriptions name.

use vstd::prelude::*;
use crate::error::{ErrorKind, HornetError};
use crate::loader::paths::{join, joined_path};
use crate::loader::source_resolver::is_http_url;
use crate::models::arazzo::{ArazzoSpec, SourceDescription};
use crate::text::{chars_of, entries_view, entry_insert, insert_entry, starts_with, str_eq, string_of, trim_start_str, trim_start_str_spec, views_of};

verus! {

/// Scans a directory for projects.
pub struct ProjectScanner {
    /// The directory scanned.
    pub root_dir: String,
}

/// A source description names an OpenAPI document: its type is `openapi`,
/// or it has none.
pub open spec fn is_openapi_source(sd: SourceDescription) -> bool {
    match sd.source_type {
        Some(t) => t@ == "openapi"@,
        None => true,
    }
}

/// Where an OpenAPI source description's document is, with its name; or
/// why it cannot be used (an external URL).
pub open spec fn source_candidate(sd: SourceDescription, dir: Seq<char>) -> Result<(Seq<char>, Seq<char>), (ErrorKind, Seq<char>)> {
    if is_http_url(sd.url@) {
        Err((ErrorKind::OpenApiLoad, "External OpenAPI URLs are not yet supported: "@ + sd.url@))
    } else {
        Ok((joined_path(dir, trim_start_str_spec(sd.url@, "./"@)), sd.name@))
    }
}

/// The candidates of the OpenAPI source descriptions among the first `n`.
pub open spec fn source_candidates(sds: Seq<SourceDescription>, dir: Seq<char>, n: int) -> Seq<Result<(Seq<char>, Seq<char>), (ErrorKind, Seq<char>)>>
    decreases n,
{
    if n <= 0 || n > sds.len() {
        Seq::empty()
    } else if is_openapi_source(sds[n - 1]) {
        source_candidates(sds, dir, n - 1).push(source_candidate(sds[n - 1], dir))
    } else {
        source_candidates(sds, dir, n - 1)
    }
}

/// The documents and their names after the first `n` candidates, of
/// which `exists[k]` tells whether candidate `k`'s document exists; or the
/// first candidate's failure.
pub open spec fn walk_candidates(
    cands: Seq<Result<(Seq<char>, Seq<char>), (ErrorKind, Seq<char>)>>,
    exists: Seq<bool>,
    n: int,
) -> Result<(Seq<Seq<char>>, Seq<(Seq<char>, Seq<char>)>), (ErrorKind, Seq<char>)>
    decreases n,
{
    if n <= 0 || n > cands.len() {
        Ok((Seq::empty(), Seq::empty()))
    } else {
        match walk_candidates(cands, exists, n - 1) {
            Err(e) => Err(e),
            Ok((paths, names)) => match cands[n - 1] {
                Err(e) => Err(e),
                Ok((p, name)) => if exists[n - 1] {
                    Ok((paths.push(p), entry_insert(names, p, name)))
                } else {
                    Err(
                        (
                            ErrorKind::OpenApiLoad,
                            "OpenAPI file not found: "@ + p + " (referenced in sourceDescriptions as '"@ + name + "')"@,
                        ),
                    )
                },
            },
        }
    }
}

/// The OpenAPI documents of a project and the source name of each; or why
/// they cannot be had.
pub open spec fn source_resolution(
    sds: Seq<SourceDescription>,
    dir: Seq<char>,
    exists: Seq<bool>,
) -> Result<(Seq<Seq<char>>, Seq<(Seq<char>, Seq<char>)>), (ErrorKind, Seq<char>)> {
    if sds.len() == 0 {
        Err((ErrorKind::ArazzoLoad, "arazzo.yaml must define sourceDescriptions with OpenAPI files"@))
    } else {
        let cands = source_candidates(sds, dir, sds.len() as int);
        match walk_candidates(cands, exists, cands.len() as int) {
            Err(e) => Err(e),
            Ok((paths, names)) => if paths.len() == 0 {
                Err(
                    (
                        ErrorKind::ArazzoLoad,
                        "No OpenAPI sources found in sourceDescriptions (all sources may be non-openapi type)"@,
                    ),
                )
            } else {
                Ok((paths, names))
            },
        }
    }
}

/// Once a candidate fails, every longer walk fails the same way.
proof fn lemma_walk_fails(
    cands: Seq<Result<(Seq<char>, Seq<char>), (ErrorKind, Seq<char>)>>,
    exists: Seq<bool>,
    n: int,
    m: int,
)
    requires
        0 < n <= m <= cands.len(),
        walk_candidates(cands, exists, n) is Err,
    ensures
        walk_candidates(cands, exists, m) == walk_candidates(cands, exists, n),
    decreases m - n,
{
    if m > n {
        lemma_walk_fails(cands, exists, n, m - 1);
    }
}

/// The candidate views of candidates held as library values.
pub open spec fn candidates_view(v: Seq<Result<(String, String), HornetError>>) -> Seq<Result<(Seq<char>, Seq<char>), (ErrorKind, Seq<char>)>> {
    v.map_values(|c: Result<(String, String), HornetError>| match c {
        Ok((p, n)) => Ok((p@, n@)),
        Err(e) => Err(e@),
    })
}

impl ProjectScanner {
    /// A scanner of the directory `root_dir`.
    pub fn new(root_dir: String) -> (s: Self)
        ensures
            s.root_dir@ == root_dir@,
    {
        ProjectScanner { root_dir }
    }

    /// Where each OpenAPI source description's document is, in order, or
    /// why it cannot be used.
    pub fn source_candidates(&self, arazzo_spec: &ArazzoSpec, project_dir: &str) -> (r: Vec<Result<(String, String), HornetError>>)
        ensures
            candidates_view(r@) == source_candidates(
                arazzo_spec.source_descriptions@,
                project_dir@,
                arazzo_spec.source_descriptions@.len() as int,
            ),
    {
        let sds = &arazzo_spec.source_descriptions;
        let mut r: Vec<Result<(String, String), HornetError>> = Vec::new();
        let mut k: usize = 0;
        while k < sds.len()
            invariant
                k <= sds@.len(),
                sds == &arazzo_spec.source_descriptions,
                candidates_view(r@) == source_candidates(sds@, project_dir@, k as int),
            decreases sds.len() - k,
        {
            let sd = &sds[k];
            let openapi = match &sd.source_type {
                Some(t) => str_eq(t.as_str(), "openapi"),
                None => true,
            };
            if openapi {
                let u = chars_of(sd.url.as_str());
                let http = chars_of("http://");
                let https = chars_of("https://");
                let c: Result<(String, String), HornetError> = if starts_with(u.as_slice(), http.as_slice())
                    || starts_with(u.as_slice(), https.as_slice()) {
                    let mut msg = String::from_str("External OpenAPI URLs are not yet supported: ");
                    msg.append(sd.url.as_str());
                    Err(HornetError::OpenApiLoadError(msg))
                } else {
                    let dot = chars_of("./");
                    let rel = string_of(trim_start_str(u.as_slice(), dot.as_slice()).as_slice());
                    Ok((join(project_dir, rel.as_str()), sd.name.clone()))
                };
                let ghost before = r@;
                r.push(c);
                assert(candidates_view(r@) =~= candidates_view(before).push(source_candidate(*sd, project_dir@)));
            }
            k = k + 1;
        }
        r
    }

    /// The OpenAPI documents of a project and the source name of each,
    /// given whether each candidate's document exists (`exists[k]` for
    /// candidate `k`); or why they cannot be had.
    pub fn resolve_source_descriptions(
        &self,
        arazzo_spec: &ArazzoSpec,
        project_dir: &str,
        exists: &Vec<bool>,
    ) -> (r: Result<(Vec<String>, Vec<(String, String)>), HornetError>)
        requires
            exists@.len() == source_candidates(
                arazzo_spec.source_descriptions@,
                project_dir@,
                arazzo_spec.source_descriptions@.len() as int,
            ).len(),
        ensures
            match r {
                Ok((paths, names)) => source_resolution(arazzo_spec.source_descriptions@, project_dir@, exists@)
                    == Ok::<(Seq<Seq<char>>, Seq<(Seq<char>, Seq<char>)>), (ErrorKind, Seq<char>)>(
                    (views_of(paths@), entries_view(names@)),
                ),
                Err(e) => source_resolution(arazzo_spec.source_descriptions@, project_dir@, exists@)
                    == Err::<(Seq<Seq<char>>, Seq<(Seq<char>, Seq<char>)>), (ErrorKind, Seq<char>)>(e@),
            },
    {
        if arazzo_spec.source_descriptions.len() == 0 {
            return Err(HornetError::ArazzoLoadError(
                String::from_str("arazzo.yaml must define sourceDescriptions with OpenAPI files"),
            ));
        }
        let cands = self.source_candidates(arazzo_spec, project_dir);
        let ghost cv = candidates_view(cands@);
        let mut paths: Vec<String> = Vec::new();
        let mut names: Vec<(String, String)> = Vec::new();
        let mut k: usize = 0;
        assert(views_of(paths@) =~= Seq::<Seq<char>>::empty());
        assert(entries_view(names@) =~= Seq::<(Seq<char>, Seq<char>)>::empty());
        while k < cands.len()
            invariant
                k <= cands@.len(),
                cv == candidates_view(cands@),
                cv == source_candidates(
                    arazzo_spec.source_descriptions@,
                    project_dir@,
                    arazzo_spec.source_descriptions@.len() as int,
                ),
                arazzo_spec.source_descriptions@.len() > 0,
                cv.len() == cands@.len(),
                exists@.len() == cands@.len(),
                walk_candidates(cv, exists@, k as int) == Ok::<(Seq<Seq<char>>, Seq<(Seq<char>, Seq<char>)>), (ErrorKind, Seq<char>)>(
                    (views_of(paths@), entries_view(names@)),
                ),
            decreases cands.len() - k,
        {
            match &cands[k] {
                Err(e) => {
                    assert(cv[k as int] == Err::<(Seq<char>, Seq<char>), (ErrorKind, Seq<char>)>(e@));
                    proof { lemma_walk_fails(cv, exists@, k + 1, cv.len() as int); }
                    return Err(e.copy());
                },
                Ok((p, name)) => {
                    if exists[k] {
                        let ghost before = paths@;
                        paths.push(p.clone());
                        assert(views_of(paths@) =~= views_of(before).push(p@));
                        insert_entry(&mut names, p.clone(), name.clone());
                    } else {
                        let mut msg = String::from_str("OpenAPI file not found: ");
                        msg.append(p.as_str());
                        msg.append(" (referenced in sourceDescriptions as '");
                        msg.append(name.as_str());
                        msg.append("')");
                        proof { lemma_walk_fails(cv, exists@, k + 1, cv.len() as int); }
                        return Err(HornetError::OpenApiLoadError(msg));
                    }
                },
            }
            k = k + 1;
        }
        if paths.len() == 0 {
            return Err(HornetError::ArazzoLoadError(
                String::from_str("No OpenAPI sources found in sourceDescriptions (all sources may be non-openapi type)"),
            ));
        }
        Ok((paths, names))
    }
}

} // verus!
