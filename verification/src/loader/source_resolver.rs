//! Resolution of the locations in an Arazzo document's source descriptions.

use vstd::prelude::*;
use crate::error::{ErrorKind, HornetError};
use crate::loader::paths::{debug, is_absolute, is_absolute_path, join, joined_path, parent, parent_path, path_debug};
use crate::loader::project::is_openapi_source;
use crate::models::arazzo::SourceDescription;
use crate::text::{chars_of, seq_starts_with, starts_with, str_eq};

verus! {

/// Resolves the locations in source descriptions against the directory of
/// the Arazzo document.
pub struct SourceDescriptionResolver {
    /// The directory holding the Arazzo document.
    pub arazzo_dir: String,
}

/// A problem met while loading a source.
pub struct SourceLoadError {
    /// Source name from the source description.
    pub name: String,
    /// Source URL from the source description.
    pub url: String,
    /// Error message.
    pub message: String,
}

/// The URL uses HTTP or HTTPS.
pub open spec fn is_http_url(url: Seq<char>) -> bool {
    seq_starts_with(url, "http://"@) || seq_starts_with(url, "https://"@)
}

/// Where a source description's URL leads, seen from `dir`: HTTP(S) URLs
/// are refused, absolute paths kept, relative paths joined onto `dir`.
pub open spec fn resolved_url(dir: Seq<char>, url: Seq<char>) -> Result<Seq<char>, (ErrorKind, Seq<char>)> {
    if is_http_url(url) {
        Err((ErrorKind::InvalidPath, "HTTP(S) URLs are not yet supported: "@ + url))
    } else if is_absolute_path(url) {
        Ok(url)
    } else {
        Ok(joined_path(dir, url))
    }
}

/// The OpenAPI sources among the first `n` source descriptions, in order:
/// each with its name, its URL and the file it resolves to or the error of
/// resolving it. Descriptions of another type are passed over.
pub open spec fn source_plan(sds: Seq<SourceDescription>, dir: Seq<char>, n: int) -> Seq<(Seq<char>, Seq<char>, Result<Seq<char>, (ErrorKind, Seq<char>)>)>
    decreases n,
{
    if n <= 0 || n > sds.len() {
        Seq::empty()
    } else if is_openapi_source(sds[n - 1]) {
        source_plan(sds, dir, n - 1).push((sds[n - 1].name@, sds[n - 1].url@, resolved_url(dir, sds[n - 1].url@)))
    } else {
        source_plan(sds, dir, n - 1)
    }
}

/// A plan of sources as plain values.
pub open spec fn plan_view(v: Seq<(String, String, Result<String, HornetError>)>) -> Seq<(Seq<char>, Seq<char>, Result<Seq<char>, (ErrorKind, Seq<char>)>)> {
    v.map_values(|e: (String, String, Result<String, HornetError>)| (e.0@, e.1@, match e.2 {
        Ok(p) => Ok(p@),
        Err(x) => Err(x@),
    }))
}

impl SourceDescriptionResolver {
    /// A resolver for the Arazzo document at `arazzo_path`: its directory
    /// is the path's parent; a path without one is refused.
    pub fn new(arazzo_path: &str) -> (r: Result<Self, HornetError>)
        ensures
            match r {
                Ok(res) => parent_path(arazzo_path@) == Some(res.arazzo_dir@),
                Err(e) => parent_path(arazzo_path@) is None && e@ == (
                    ErrorKind::InvalidPath,
                    "Invalid Arazzo path: "@ + path_debug(arazzo_path@),
                ),
            },
    {
        match parent(arazzo_path) {
            Some(dir) => Ok(SourceDescriptionResolver { arazzo_dir: dir }),
            None => {
                let mut msg = String::from_str("Invalid Arazzo path: ");
                msg.append(debug(arazzo_path).as_str());
                Err(HornetError::InvalidPath(msg))
            },
        }
    }

    /// Where a source description's URL leads.
    pub fn resolve_url(&self, url: &str) -> (r: Result<String, HornetError>)
        ensures
            match r {
                Ok(p) => resolved_url(self.arazzo_dir@, url@) == Ok::<Seq<char>, (ErrorKind, Seq<char>)>(p@),
                Err(e) => resolved_url(self.arazzo_dir@, url@) == Err::<Seq<char>, (ErrorKind, Seq<char>)>(e@),
            },
    {
        let u = chars_of(url);
        let http = chars_of("http://");
        let https = chars_of("https://");
        if starts_with(u.as_slice(), http.as_slice()) || starts_with(u.as_slice(), https.as_slice()) {
            let mut msg = String::from_str("HTTP(S) URLs are not yet supported: ");
            msg.append(url);
            return Err(HornetError::InvalidPath(msg));
        }
        if is_absolute(url) {
            return Ok(String::from_str(url));
        }
        Ok(join(self.arazzo_dir.as_str(), url))
    }

    /// The OpenAPI sources to load, in order, each with the file it names
    /// or the error of resolving its URL; sources of another type are
    /// passed over.
    pub fn source_paths(&self, source_descriptions: &[SourceDescription]) -> (r: Vec<(String, String, Result<String, HornetError>)>)
        ensures
            plan_view(r@) == source_plan(source_descriptions@, self.arazzo_dir@, source_descriptions@.len() as int),
    {
        let mut r: Vec<(String, String, Result<String, HornetError>)> = Vec::new();
        let mut k: usize = 0;
        while k < source_descriptions.len()
            invariant
                k <= source_descriptions@.len(),
                plan_view(r@) == source_plan(source_descriptions@, self.arazzo_dir@, k as int),
            decreases source_descriptions.len() - k,
        {
            let sd = &source_descriptions[k];
            let openapi = match &sd.source_type {
                Some(t) => str_eq(t.as_str(), "openapi"),
                None => true,
            };
            if openapi {
                let entry = (sd.name.clone(), sd.url.clone(), self.resolve_url(sd.url.as_str()));
                let ghost before = r@;
                r.push(entry);
                assert(plan_view(r@) =~= plan_view(before).push(
                    (sd.name@, sd.url@, resolved_url(self.arazzo_dir@, sd.url@)),
                ));
            }
            k = k + 1;
        }
        r
    }
}

} // verus!