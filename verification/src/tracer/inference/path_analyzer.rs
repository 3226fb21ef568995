//! Detection of path parameters and inference of route patterns from the
//! paths observed for each method.

use vstd::prelude::*;
use vstd::seq_lib::to_multiset_build;
use crate::text::{chars_of, decimal, decimal_u64, join, join_spec, split_char, split_chars, str_eq, string_of, views_of};
use crate::tracer::inference::schema_inferrer::{is_digit, is_hex_digit, utf8_len, uuid_text, SchemaInferrer};

verus! {

/// The inferred type of a path parameter.
#[derive(Debug, Clone, Copy, PartialEq, Eq, Structural)]
pub enum ParameterType {
    /// UUID format.
    Uuid,
    /// Integer.
    Integer,
    /// Alphanumeric slug.
    Slug,
    /// Generic string.
    String,
}

/// A detected path parameter.
pub struct PathParameter {
    /// Parameter name (e.g. `id`).
    pub name: String,
    /// Position in the path (from 0).
    pub position: usize,
    /// Example values observed.
    pub example_values: Vec<String>,
    /// Inferred type.
    pub param_type: ParameterType,
}

/// The result of path analysis.
pub struct PathAnalysisResult {
    /// The inferred route (e.g. `GET /users/{id}`).
    pub route: String,
    /// Detected parameters.
    pub parameters: Vec<PathParameter>,
    /// Number of paths that matched this route.
    pub occurrence_count: usize,
}

/// Analyzes paths to detect parameters and infer route patterns.
pub struct PathAnalyzer {
    /// Minimum number of distinct values for a segment to be a parameter.
    pub min_unique_values: usize,
    /// Maximum share, in percent, of distinct values among all paths for a
    /// segment to be a parameter by the share rule.
    pub max_unique_percent: u64,
}

// ---------------------------------------------------------------- segments

/// The non-empty pieces among the first `n`.
pub open spec fn non_empty(xs: Seq<Seq<char>>, n: int) -> Seq<Seq<char>>
    decreases n,
{
    if n <= 0 || n > xs.len() {
        Seq::empty()
    } else if xs[n - 1].len() > 0 {
        non_empty(xs, n - 1).push(xs[n - 1])
    } else {
        non_empty(xs, n - 1)
    }
}

/// The non-empty segments of a path.
pub open spec fn path_segments(p: Seq<char>) -> Seq<Seq<char>> {
    non_empty(split_char(p, '/'), split_char(p, '/').len() as int)
}

/// A segment that is a UUID.
pub open spec fn uuid_segment(s: Seq<char>) -> bool {
    utf8_len(s) == 36 && uuid_text(s)
}

/// A segment of decimal digits.
pub open spec fn integer_segment(s: Seq<char>) -> bool {
    s.len() > 0 && forall|i: int| 0 <= i < s.len() ==> is_digit(#[trigger] s[i])
}

/// A character of a slug: an ASCII letter or digit, `-` or `_`.
pub open spec fn slug_char(c: char) -> bool {
    ('a' <= c && c <= 'z') || ('A' <= c && c <= 'Z') || ('0' <= c && c <= '9') || c == '-' || c == '_'
}

/// A segment that is a slug.
pub open spec fn slug_segment(s: Seq<char>) -> bool {
    s.len() > 0 && forall|i: int| 0 <= i < s.len() ==> slug_char(#[trigger] s[i])
}

/// A segment that looks like an identifier: a UUID, an integer or a slug.
pub open spec fn known_pattern(s: Seq<char>) -> bool {
    uuid_segment(s) || integer_segment(s) || slug_segment(s)
}

/// The distinct values among the first `n`, in order of first occurrence.
pub open spec fn distinct(xs: Seq<Seq<char>>, n: int) -> Seq<Seq<char>>
    decreases n,
{
    if n <= 0 || n > xs.len() {
        Seq::empty()
    } else if distinct(xs, n - 1).contains(xs[n - 1]) {
        distinct(xs, n - 1)
    } else {
        distinct(xs, n - 1).push(xs[n - 1])
    }
}

/// The segment at `pos` of each path of a group.
pub open spec fn column(group: Seq<Seq<Seq<char>>>, pos: int) -> Seq<Seq<char>> {
    group.map_values(|segs: Seq<Seq<char>>| segs[pos])
}

/// The distinct values at `pos` of a group's paths.
pub open spec fn column_values(group: Seq<Seq<Seq<char>>>, pos: int) -> Seq<Seq<char>> {
    distinct(column(group, pos), group.len() as int)
}

/// Whether a position with these distinct values is a parameter: more
/// than one value, at least the minimum, and either every value looks
/// like an identifier or the share of distinct values lies between 30%
/// and the maximum share.
pub open spec fn is_parameter(a: PathAnalyzer, u: Seq<Seq<char>>, total: nat) -> bool {
    &&& u.len() != 1
    &&& u.len() >= a.min_unique_values
    &&& ((forall|i: int| 0 <= i < u.len() ==> known_pattern(#[trigger] u[i])) || (100 * u.len()
        <= a.max_unique_percent * total && 10 * u.len() >= 3 * total))
}

/// The type of a parameter with these values: the most specific that all
/// of them have.
pub open spec fn parameter_type(u: Seq<Seq<char>>) -> ParameterType {
    if forall|i: int| 0 <= i < u.len() ==> uuid_segment(#[trigger] u[i]) {
        ParameterType::Uuid
    } else if forall|i: int| 0 <= i < u.len() ==> integer_segment(#[trigger] u[i]) {
        ParameterType::Integer
    } else if forall|i: int| 0 <= i < u.len() ==> slug_segment(#[trigger] u[i]) {
        ParameterType::Slug
    } else {
        ParameterType::String
    }
}

/// The name of the parameter number `index` (from 0) of this type: `id`,
/// `slug` or `param`, numbered from 2 after the first.
pub open spec fn parameter_name(index: nat, t: ParameterType) -> Seq<char> {
    let base = match t {
        ParameterType::Uuid => "id"@,
        ParameterType::Integer => "id"@,
        ParameterType::Slug => "slug"@,
        ParameterType::String => "param"@,
    };
    if index > 0 {
        base + decimal(index + 1)
    } else {
        base
    }
}

/// A detected parameter: name, position, example values and type.
pub type ParamView = (Seq<char>, int, Seq<Seq<char>>, ParameterType);

/// The parameters among the first `pos` positions of a group's paths.
pub open spec fn group_params(a: PathAnalyzer, group: Seq<Seq<Seq<char>>>, pos: int) -> Seq<ParamView>
    decreases pos,
{
    if pos <= 0 {
        Seq::empty()
    } else {
        let prev = group_params(a, group, pos - 1);
        let u = column_values(group, pos - 1);
        if is_parameter(a, u, group.len()) {
            let t = parameter_type(u);
            let n = if u.len() < 5 { u.len() as int } else { 5int };
            prev.push((parameter_name(prev.len(), t), pos - 1, u.subrange(0, n), t))
        } else {
            prev
        }
    }
}

/// The route segments of the first `pos` positions: `{name}` for a
/// parameter, else the first path's segment.
pub open spec fn route_segments(a: PathAnalyzer, group: Seq<Seq<Seq<char>>>, pos: int) -> Seq<Seq<char>>
    decreases pos,
{
    if pos <= 0 {
        Seq::empty()
    } else {
        let prev = route_segments(a, group, pos - 1);
        let u = column_values(group, pos - 1);
        if is_parameter(a, u, group.len()) {
            prev.push("{"@ + parameter_name(group_params(a, group, pos - 1).len(), parameter_type(u)) + "}"@)
        } else {
            prev.push(group[0][pos - 1])
        }
    }
}

/// The route has one segment per position, each fixed once its position
/// is reached.
proof fn lemma_route_segments(a: PathAnalyzer, group: Seq<Seq<Seq<char>>>, n: int, p: int)
    requires
        0 <= p < n,
    ensures
        route_segments(a, group, n).len() == n,
        route_segments(a, group, n)[p] == route_segments(a, group, p + 1)[p],
    decreases n,
{
    if n > p + 1 {
        lemma_route_segments(a, group, n - 1, p);
    } else {
        lemma_route_len(a, group, n);
    }
}

/// The route of the first `n` positions has `n` segments.
proof fn lemma_route_len(a: PathAnalyzer, group: Seq<Seq<Seq<char>>>, n: int)
    requires
        0 <= n,
    ensures
        route_segments(a, group, n).len() == n,
    decreases n,
{
    if n > 0 {
        lemma_route_len(a, group, n - 1);
    }
}

/// The parameters found among the first `m` positions stay, in place,
/// among the first `n >= m`.
proof fn lemma_params_grow(a: PathAnalyzer, group: Seq<Seq<Seq<char>>>, m: int, n: int)
    requires
        0 <= m <= n,
    ensures
        group_params(a, group, m).len() <= group_params(a, group, n).len(),
        forall|j: int| 0 <= j < group_params(a, group, m).len() ==> #[trigger] group_params(a, group, n)[j]
            == group_params(a, group, m)[j],
    decreases n,
{
    if n > m {
        lemma_params_grow(a, group, m, n - 1);
    }
}

/// A position where the paths of a group take several values, at least
/// the minimum, making up between 30% and the maximum share of the paths,
/// is a parameter, whatever the values look like: the route shows it as
/// `{name}` and it is among the parameters found.
pub proof fn law_shared_positions_become_parameters(a: PathAnalyzer, group: Seq<Seq<Seq<char>>>, count: int, p: int)
    requires
        0 <= p < count,
        column_values(group, p).len() >= 2,
        column_values(group, p).len() >= a.min_unique_values,
        100 * column_values(group, p).len() <= a.max_unique_percent * group.len(),
        10 * column_values(group, p).len() >= 3 * group.len(),
    ensures
        exists|name: Seq<char>| route_segments(a, group, count)[p] == "{"@ + name + "}"@,
        exists|j: int| 0 <= j < group_params(a, group, count).len() && (#[trigger] group_params(a, group, count)[j]).1
            == p,
{
    let u = column_values(group, p);
    assert(is_parameter(a, u, group.len()));
    lemma_route_segments(a, group, count, p);
    lemma_route_len(a, group, p);
    let name = parameter_name(group_params(a, group, p).len(), parameter_type(u));
    assert(route_segments(a, group, p + 1)[p] == "{"@ + name + "}"@);
    assert(route_segments(a, group, count)[p] == "{"@ + name + "}"@);
    let j = group_params(a, group, p).len() as int;
    assert(group_params(a, group, p + 1)[j].1 == p);
    lemma_params_grow(a, group, p + 1, count);
    assert(group_params(a, group, count)[j].1 == p);
}

/// A position where the paths of a group take values that all look like
/// identifiers (UUIDs, integers or slugs), more than one and at least the
/// minimum, is a parameter, whatever their share of the paths.
pub proof fn law_identifier_positions_become_parameters(a: PathAnalyzer, group: Seq<Seq<Seq<char>>>, count: int, p: int)
    requires
        0 <= p < count,
        column_values(group, p).len() >= 2,
        column_values(group, p).len() >= a.min_unique_values,
        forall|i: int| 0 <= i < column_values(group, p).len() ==> #[trigger] known_pattern(column_values(group, p)[i]),
    ensures
        exists|name: Seq<char>| route_segments(a, group, count)[p] == "{"@ + name + "}"@,
{
    let u = column_values(group, p);
    assert(is_parameter(a, u, group.len()));
    lemma_route_segments(a, group, count, p);
    lemma_route_len(a, group, p);
    let name = parameter_name(group_params(a, group, p).len(), parameter_type(u));
    assert(route_segments(a, group, p + 1)[p] == "{"@ + name + "}"@);
}

/// A position where all paths of a group agree stays as it is in the
/// route.
pub proof fn law_constant_positions_stay_literal(a: PathAnalyzer, group: Seq<Seq<Seq<char>>>, count: int, p: int)
    requires
        0 <= p < count,
        column_values(group, p).len() == 1,
    ensures
        route_segments(a, group, count)[p] == group[0][p],
{
    lemma_route_segments(a, group, count, p);
    lemma_route_len(a, group, p);
    assert(!is_parameter(a, column_values(group, p), group.len()));
    assert(route_segments(a, group, p + 1)[p] == group[0][p]);
}

/// The route of a group of paths with `count` segments each.
pub open spec fn group_route(a: PathAnalyzer, group: Seq<Seq<Seq<char>>>, count: int) -> Seq<char> {
    "/"@ + join_spec(route_segments(a, group, count), "/"@)
}


// ---------------------------------------------------------------- grouping

/// The position of the group whose paths have `c` segments.
pub open spec fn length_group_of(groups: Seq<Seq<Seq<Seq<char>>>>, c: nat, from: int) -> Option<int>
    decreases groups.len() - from,
{
    if from < 0 || from >= groups.len() {
        None
    } else if groups[from].len() > 0 && groups[from][0].len() == c {
        Some(from)
    } else {
        length_group_of(groups, c, from + 1)
    }
}

/// The first `n` segment lists grouped by their length, groups in order of
/// first appearance.
pub open spec fn length_groups(segs: Seq<Seq<Seq<char>>>, n: int) -> Seq<Seq<Seq<Seq<char>>>>
    decreases n,
{
    if n <= 0 || n > segs.len() {
        Seq::empty()
    } else {
        let gs = length_groups(segs, n - 1);
        match length_group_of(gs, segs[n - 1].len(), 0) {
            Some(g) => gs.update(g, gs[g].push(segs[n - 1])),
            None => gs.push(seq![segs[n - 1]]),
        }
    }
}

/// Every group is non-empty and its segment lists share one length.
pub open spec fn uniform_groups(gs: Seq<Seq<Seq<Seq<char>>>>) -> bool {
    forall|g: int| 0 <= g < gs.len() ==> #[trigger] gs[g].len() > 0 && (forall|i: int|
        0 <= i < gs[g].len() ==> (#[trigger] gs[g][i]).len() == gs[g][0].len())
}

/// A group found by `length_group_of` lies in range.
proof fn lemma_length_group_of(groups: Seq<Seq<Seq<Seq<char>>>>, c: nat, from: int)
    requires
        length_group_of(groups, c, from) is Some,
    ensures
        from <= length_group_of(groups, c, from).unwrap() < groups.len(),
        groups[length_group_of(groups, c, from).unwrap()].len() > 0,
        groups[length_group_of(groups, c, from).unwrap()][0].len() == c,
    decreases groups.len() - from,
{
    if !(from < 0 || from >= groups.len()) && !(groups[from].len() > 0 && groups[from][0].len() == c) {
        lemma_length_group_of(groups, c, from + 1);
    }
}

/// Grouping by length yields uniform groups.
proof fn lemma_length_groups_uniform(segs: Seq<Seq<Seq<char>>>, n: int)
    requires
        0 <= n <= segs.len(),
    ensures
        uniform_groups(length_groups(segs, n)),
    decreases n,
{
    if n > 0 {
        lemma_length_groups_uniform(segs, n - 1);
        let gs = length_groups(segs, n - 1);
        match length_group_of(gs, segs[n - 1].len(), 0) {
            Some(g) => {
                lemma_length_group_of(gs, segs[n - 1].len(), 0);
                let r = gs.update(g, gs[g].push(segs[n - 1]));
                assert forall|h: int| 0 <= h < r.len() implies #[trigger] r[h].len() > 0 && (forall|i: int|
                    0 <= i < r[h].len() ==> (#[trigger] r[h][i]).len() == r[h][0].len()) by {
                    if h == g {
                        assert forall|i: int| 0 <= i < r[h].len() implies (#[trigger] r[h][i]).len() == r[h][0].len() by {
                            if i < gs[g].len() {
                                assert(r[h][i] == gs[g][i]);
                            }
                        }
                    }
                }
            },
            None => {
                let r = gs.push(seq![segs[n - 1]]);
                assert forall|h: int| 0 <= h < r.len() implies #[trigger] r[h].len() > 0 && (forall|i: int|
                    0 <= i < r[h].len() ==> (#[trigger] r[h][i]).len() == r[h][0].len()) by {
                    if h < gs.len() {
                        assert(r[h] == gs[h]);
                    }
                }
            },
        }
    }
}

/// The result of analysing one group: its route, parameters and count.
pub open spec fn group_result(a: PathAnalyzer, g: Seq<Seq<Seq<char>>>) -> (Seq<char>, Seq<ParamView>, nat) {
    (group_route(a, g, g[0].len() as int), group_params(a, g, g[0].len() as int), g.len())
}

/// The results of analysing paths of one method, one per segment count,
/// in order of first appearance.
pub open spec fn paths_results(a: PathAnalyzer, paths: Seq<Seq<char>>) -> Seq<(Seq<char>, Seq<ParamView>, nat)> {
    let segs = paths.map_values(|p: Seq<char>| path_segments(p));
    let gs = length_groups(segs, segs.len() as int);
    gs.map_values(|g: Seq<Seq<Seq<char>>>| group_result(a, g))
}

/// Parameters as views.
pub open spec fn param_views(ps: Seq<PathParameter>) -> Seq<ParamView> {
    ps.map_values(|p: PathParameter| (p.name@, p.position as int, views_of(p.example_values@), p.param_type))
}

/// A result as a view.
pub open spec fn result_view(r: PathAnalysisResult) -> (Seq<char>, Seq<ParamView>, nat) {
    (r.route@, param_views(r.parameters@), r.occurrence_count as nat)
}

/// Results as views.
pub open spec fn results_view(rs: Seq<PathAnalysisResult>) -> Seq<(Seq<char>, Seq<ParamView>, nat)> {
    rs.map_values(|r: PathAnalysisResult| result_view(r))
}


// ---------------------------------------------------------------- executable analysis

/// A group of segment lists as views.
pub open spec fn group_view(g: Seq<Vec<String>>) -> Seq<Seq<Seq<char>>> {
    g.map_values(|segs: Vec<String>| views_of(segs@))
}

/// The non-empty segments of a path.
pub fn segments_of(path: &str) -> (r: Vec<String>)
    ensures
        views_of(r@) == path_segments(path@),
{
    let c = chars_of(path);
    let pieces = split_chars(c.as_slice(), '/');
    let ghost pv = pieces@.map_values(|v: Vec<char>| v@);
    let mut r: Vec<String> = Vec::new();
    let mut k: usize = 0;
    assert(views_of(r@) =~= Seq::<Seq<char>>::empty());
    while k < pieces.len()
        invariant
            k <= pieces@.len(),
            pv == pieces@.map_values(|v: Vec<char>| v@),
            pv == split_char(path@, '/'),
            views_of(r@) == non_empty(pv, k as int),
        decreases pieces.len() - k,
    {
        assert(pv[k as int] == pieces@[k as int]@);
        if pieces[k].len() > 0 {
            let ghost before = r@;
            let seg = string_of(pieces[k].as_slice());
            r.push(seg);
            assert(views_of(r@) =~= views_of(before).push(seg@));
        }
        k = k + 1;
    }
    r
}

/// Whether a segment is made of decimal digits.
fn is_integer_segment(s: &str) -> (r: bool)
    ensures
        r == integer_segment(s@),
{
    let c = chars_of(s);
    if c.len() == 0 {
        return false;
    }
    let mut i: usize = 0;
    while i < c.len()
        invariant
            i <= c@.len(),
            c@ == s@,
            forall|j: int| 0 <= j < i ==> is_digit(#[trigger] c@[j]),
        decreases c.len() - i,
    {
        if !('0' <= c[i] && c[i] <= '9') {
            return false;
        }
        i = i + 1;
    }
    true
}

/// Whether a segment is a slug.
fn is_slug_segment(s: &str) -> (r: bool)
    ensures
        r == slug_segment(s@),
{
    let c = chars_of(s);
    if c.len() == 0 {
        return false;
    }
    let mut i: usize = 0;
    while i < c.len()
        invariant
            i <= c@.len(),
            c@ == s@,
            forall|j: int| 0 <= j < i ==> slug_char(#[trigger] c@[j]),
        decreases c.len() - i,
    {
        let ch = c[i];
        if !(('a' <= ch && ch <= 'z') || ('A' <= ch && ch <= 'Z') || ('0' <= ch && ch <= '9') || ch == '-' || ch == '_') {
            return false;
        }
        i = i + 1;
    }
    true
}

/// Whether a segment is a UUID.
fn is_uuid_segment(s: &str) -> (r: bool)
    ensures
        r == uuid_segment(s@),
{
    SchemaInferrer::new().is_uuid(s)
}

/// The distinct values, in order of first occurrence.
fn distinct_values(xs: &Vec<String>) -> (r: Vec<String>)
    ensures
        views_of(r@) == distinct(views_of(xs@), xs@.len() as int),
{
    let mut r: Vec<String> = Vec::new();
    let mut k: usize = 0;
    assert(views_of(r@) =~= Seq::<Seq<char>>::empty());
    while k < xs.len()
        invariant
            k <= xs@.len(),
            views_of(r@) == distinct(views_of(xs@), k as int),
        decreases xs.len() - k,
    {
        let mut found = false;
        let mut i: usize = 0;
        while i < r.len()
            invariant
                i <= r@.len(),
                k < xs@.len(),
                !found ==> forall|j: int| 0 <= j < i ==> views_of(r@)[j] != xs@[k as int]@,
                found ==> views_of(r@).contains(xs@[k as int]@),
            decreases r.len() - i,
        {
            if str_eq(r[i].as_str(), xs[k].as_str()) {
                assert(views_of(r@)[i as int] == xs@[k as int]@);
                found = true;
            }
            i = i + 1;
        }
        if !found {
            let ghost before = r@;
            r.push(xs[k].clone());
            assert(views_of(r@) =~= views_of(before).push(xs@[k as int]@));
        }
        k = k + 1;
    }
    r
}

/// Whether every value satisfies the check named by `which`: 0 for UUIDs,
/// 1 for integers, 2 for slugs, 3 for any of them.
fn all_values(u: &Vec<String>, which: u8) -> (r: bool)
    requires
        which <= 3,
    ensures
        r == (forall|i: int| 0 <= i < u@.len() ==> (if which == 0 {
            uuid_segment(#[trigger] views_of(u@)[i])
        } else if which == 1 {
            integer_segment(views_of(u@)[i])
        } else if which == 2 {
            slug_segment(views_of(u@)[i])
        } else {
            known_pattern(views_of(u@)[i])
        })),
{
    let mut i: usize = 0;
    while i < u.len()
        invariant
            i <= u@.len(),
            which <= 3,
            forall|j: int| 0 <= j < i ==> (if which == 0 {
                uuid_segment(#[trigger] views_of(u@)[j])
            } else if which == 1 {
                integer_segment(views_of(u@)[j])
            } else if which == 2 {
                slug_segment(views_of(u@)[j])
            } else {
                known_pattern(views_of(u@)[j])
            }),
        decreases u.len() - i,
    {
        let v = u[i].as_str();
        let ok = if which == 0 {
            is_uuid_segment(v)
        } else if which == 1 {
            is_integer_segment(v)
        } else if which == 2 {
            is_slug_segment(v)
        } else {
            is_uuid_segment(v) || is_integer_segment(v) || is_slug_segment(v)
        };
        assert(views_of(u@)[i as int] == u@[i as int]@);
        if !ok {
            return false;
        }
        i = i + 1;
    }
    true
}

impl PathAnalyzer {
    /// An analyzer that needs two distinct values and allows a share of up
    /// to 80% of distinct values.
    pub fn new() -> (a: Self)
        ensures
            a.min_unique_values == 2,
            a.max_unique_percent == 80,
    {
        PathAnalyzer { min_unique_values: 2, max_unique_percent: 80 }
    }

    /// The analyzer with this minimum number of distinct values.
    pub fn with_min_unique_values(self, min: usize) -> (a: Self)
        ensures
            a.min_unique_values == min,
            a.max_unique_percent == self.max_unique_percent,
    {
        PathAnalyzer { min_unique_values: min, ..self }
    }

    /// The analyzer with this maximum share of distinct values, in percent.
    pub fn with_max_unique_percent(self, percent: u64) -> (a: Self)
        ensures
            a.min_unique_values == self.min_unique_values,
            a.max_unique_percent == percent,
    {
        PathAnalyzer { max_unique_percent: percent, ..self }
    }

    /// Whether a position with these distinct values is a parameter.
    fn should_be_parameter(&self, unique: &Vec<String>, total: usize) -> (r: bool)
        ensures
            r == is_parameter(*self, views_of(unique@), total as nat),
    {
        let n = unique.len();
        if n == 1 {
            return false;
        }
        if n < self.min_unique_values {
            return false;
        }
        if all_values(unique, 3) {
            return true;
        }
        let lhs = (n as u128) * 100;
        let pct = self.max_unique_percent as u128;
        let tot = total as u128;
        proof {
            assert(pct * tot <= 0xffff_ffff_ffff_ffffu128 * 0xffff_ffff_ffff_ffffu128) by (nonlinear_arith)
                requires
                    pct <= 0xffff_ffff_ffff_ffffu128,
                    tot <= 0xffff_ffff_ffff_ffffu128,
            ;
        }
        let rhs = pct * tot;
        lhs <= rhs && (n as u128) * 10 >= (total as u128) * 3
    }

    /// The type of a parameter with these values.
    pub fn infer_type(&self, unique: &Vec<String>) -> (t: ParameterType)
        ensures
            t == parameter_type(views_of(unique@)),
    {
        if all_values(unique, 0) {
            ParameterType::Uuid
        } else if all_values(unique, 1) {
            ParameterType::Integer
        } else if all_values(unique, 2) {
            ParameterType::Slug
        } else {
            ParameterType::String
        }
    }

    /// The name of the parameter number `index` of this type.
    fn infer_name(&self, index: usize, t: ParameterType) -> (s: String)
        requires
            index < usize::MAX,
        ensures
            s@ == parameter_name(index as nat, t),
    {
        let mut s = match t {
            ParameterType::Uuid => String::from_str("id"),
            ParameterType::Integer => String::from_str("id"),
            ParameterType::Slug => String::from_str("slug"),
            ParameterType::String => String::from_str("param"),
        };
        if index > 0 {
            s.append(decimal_u64(index as u64 + 1).as_str());
        }
        s
    }

    /// The route, parameters and count of a group of paths of one length.
    fn analyze_group(&self, group: &Vec<Vec<String>>) -> (r: PathAnalysisResult)
        requires
            group@.len() > 0,
            forall|i: int| 0 <= i < group@.len() ==> (#[trigger] group@[i])@.len() == group@[0]@.len(),
        ensures
            result_view(r) == group_result(*self, group_view(group@)),
    {
        let ghost gv = group_view(group@);
        let count = group[0].len();
        let mut params: Vec<PathParameter> = Vec::new();
        let mut segs: Vec<String> = Vec::new();
        let mut pos: usize = 0;
        assert(param_views(params@) =~= Seq::<ParamView>::empty());
        assert(views_of(segs@) =~= Seq::<Seq<char>>::empty());
        while pos < count
            invariant
                pos <= count,
                count == group@[0]@.len(),
                group@.len() > 0,
                gv == group_view(group@),
                forall|i: int| 0 <= i < group@.len() ==> (#[trigger] group@[i])@.len() == count,
                param_views(params@) == group_params(*self, gv, pos as int),
                views_of(segs@) == route_segments(*self, gv, pos as int),
                params@.len() <= pos,
            decreases count - pos,
        {
            let mut col: Vec<String> = Vec::new();
            let mut i: usize = 0;
            while i < group.len()
                invariant
                    i <= group@.len(),
                    pos < count,
                    gv == group_view(group@),
                    forall|j: int| 0 <= j < group@.len() ==> (#[trigger] group@[j])@.len() == count,
                    views_of(col@) == column(gv, pos as int).subrange(0, i as int),
                decreases group.len() - i,
            {
                assert(group@[i as int]@.len() == count);
                let ghost before = col@;
                col.push(group[i][pos].clone());
                assert(views_of(col@) =~= views_of(before).push(gv[i as int][pos as int]));
                assert(views_of(col@) =~= column(gv, pos as int).subrange(0, i + 1));
                i = i + 1;
            }
            assert(column(gv, pos as int).subrange(0, i as int) =~= column(gv, pos as int));
            let unique = distinct_values(&col);
            assert(views_of(unique@) == column_values(gv, pos as int));
            if self.should_be_parameter(&unique, group.len()) {
                let t = self.infer_type(&unique);
                let name = self.infer_name(params.len(), t);
                let n: usize = if unique.len() < 5 { unique.len() } else { 5 };
                let mut examples: Vec<String> = Vec::new();
                let mut k: usize = 0;
                while k < n
                    invariant
                        k <= n <= unique@.len(),
                        views_of(examples@) == views_of(unique@).subrange(0, k as int),
                    decreases n - k,
                {
                    let ghost before = examples@;
                    examples.push(unique[k].clone());
                    assert(views_of(examples@) =~= views_of(before).push(unique@[k as int]@));
                    assert(views_of(examples@) =~= views_of(unique@).subrange(0, k + 1));
                    k = k + 1;
                }
                let mut seg = String::from_str("{");
                seg.append(name.as_str());
                seg.append("}");
                let ghost pb = params@;
                let ghost sb = segs@;
                let p = PathParameter { name, position: pos, example_values: examples, param_type: t };
                let ghost pview = (p.name@, p.position as int, views_of(p.example_values@), p.param_type);
                params.push(p);
                assert(param_views(params@) =~= param_views(pb).push(pview));
                segs.push(seg);
                assert(views_of(segs@) =~= views_of(sb).push(seg@));
            } else {
                let ghost sb = segs@;
                let seg = group[0][pos].clone();
                segs.push(seg);
                assert(views_of(segs@) =~= views_of(sb).push(gv[0][pos as int]));
            }
            pos = pos + 1;
        }
        let mut route = String::from_str("/");
        route.append(join(&segs, "/").as_str());
        PathAnalysisResult { route, parameters: params, occurrence_count: group.len() }
    }
}


// ---------------------------------------------------------------- methods

/// The position of the method group for `m`.
pub open spec fn method_group_of(gs: Seq<(Seq<char>, Seq<Seq<char>>)>, m: Seq<char>, from: int) -> Option<int>
    decreases gs.len() - from,
{
    if from < 0 || from >= gs.len() {
        None
    } else if gs[from].0 == m {
        Some(from)
    } else {
        method_group_of(gs, m, from + 1)
    }
}

/// A group found by `method_group_of` lies in range.
proof fn lemma_method_group_of(gs: Seq<(Seq<char>, Seq<Seq<char>>)>, m: Seq<char>, from: int)
    requires
        method_group_of(gs, m, from) is Some,
    ensures
        from <= method_group_of(gs, m, from).unwrap() < gs.len(),
        gs[method_group_of(gs, m, from).unwrap()].0 == m,
    decreases gs.len() - from,
{
    if !(from < 0 || from >= gs.len()) && gs[from].0 != m {
        lemma_method_group_of(gs, m, from + 1);
    }
}

/// The paths of the first `n` method–path pairs grouped by method, groups
/// in order of first appearance.
pub open spec fn method_groups(pairs: Seq<(Seq<char>, Seq<char>)>, n: int) -> Seq<(Seq<char>, Seq<Seq<char>>)>
    decreases n,
{
    if n <= 0 || n > pairs.len() {
        Seq::empty()
    } else {
        let gs = method_groups(pairs, n - 1);
        match method_group_of(gs, pairs[n - 1].0, 0) {
            Some(g) => gs.update(g, (gs[g].0, gs[g].1.push(pairs[n - 1].1))),
            None => gs.push((pairs[n - 1].0, seq![pairs[n - 1].1])),
        }
    }
}

/// A result with its route prefixed by the method.
pub open spec fn prefixed(m: Seq<char>, r: (Seq<char>, Seq<ParamView>, nat)) -> (Seq<char>, Seq<ParamView>, nat) {
    (m + " "@ + r.0, r.1, r.2)
}

/// The results of the first `n` method groups, routes prefixed by method.
pub open spec fn all_results(a: PathAnalyzer, gs: Seq<(Seq<char>, Seq<Seq<char>>)>, n: int) -> Seq<(Seq<char>, Seq<ParamView>, nat)>
    decreases n,
{
    if n <= 0 || n > gs.len() {
        Seq::empty()
    } else {
        all_results(a, gs, n - 1) + paths_results(a, gs[n - 1].1).map_values(
            |r: (Seq<char>, Seq<ParamView>, nat)| prefixed(gs[n - 1].0, r),
        )
    }
}

/// `x` placed after every result seen at least as often.
pub open spec fn insert_by_count(sorted: Seq<(Seq<char>, Seq<ParamView>, nat)>, x: (Seq<char>, Seq<ParamView>, nat)) -> Seq<(Seq<char>, Seq<ParamView>, nat)>
    decreases sorted.len(),
{
    if sorted.len() == 0 {
        seq![x]
    } else if sorted.last().2 >= x.2 {
        sorted.push(x)
    } else {
        insert_by_count(sorted.drop_last(), x).push(sorted.last())
    }
}

/// The results ordered by count, most frequent first; equal counts keep
/// their order.
pub open spec fn sort_by_count(rs: Seq<(Seq<char>, Seq<ParamView>, nat)>) -> Seq<(Seq<char>, Seq<ParamView>, nat)>
    decreases rs.len(),
{
    if rs.len() == 0 {
        Seq::empty()
    } else {
        insert_by_count(sort_by_count(rs.drop_last()), rs.last())
    }
}

/// Results seen at least as often come first.
pub open spec fn most_frequent_first(rs: Seq<(Seq<char>, Seq<ParamView>, nat)>) -> bool {
    forall|i: int, j: int| 0 <= i < j < rs.len() ==> rs[i].2 >= rs[j].2
}

/// Inserting into results ordered by count keeps them ordered, keeps a lower
/// bound that `x` meets, and adds `x` to them.
proof fn lemma_insert_by_count(sorted: Seq<(Seq<char>, Seq<ParamView>, nat)>, x: (Seq<char>, Seq<ParamView>, nat), b: nat)
    requires
        most_frequent_first(sorted),
    ensures
        most_frequent_first(insert_by_count(sorted, x)),
        insert_by_count(sorted, x).to_multiset() == sorted.to_multiset().insert(x),
        (forall|i: int| 0 <= i < sorted.len() ==> #[trigger] sorted[i].2 >= b) && x.2 >= b ==> forall|i: int|
            0 <= i < insert_by_count(sorted, x).len() ==> #[trigger] insert_by_count(sorted, x)[i].2 >= b,
    decreases sorted.len(),
{
    broadcast use vstd::multiset::group_multiset_axioms;
    broadcast use vstd::seq_lib::group_to_multiset_ensures;
    broadcast use vstd::multiset::lemma_multiset_empty_len;

    if sorted.len() == 0 {
        assert(seq![x] =~= sorted.push(x));
        to_multiset_build(sorted, x);
    } else if sorted.last().2 >= x.2 {
        to_multiset_build(sorted, x);
    } else {
        let init = sorted.drop_last();
        let last = sorted.last();
        assert(most_frequent_first(init));
        lemma_insert_by_count(init, x, b);
        lemma_insert_by_count(init, x, last.2);
        let inner = insert_by_count(init, x);
        assert(forall|i: int| 0 <= i < init.len() ==> #[trigger] init[i].2 >= last.2);
        to_multiset_build(inner, last);
        assert(sorted =~= init.push(last));
        to_multiset_build(init, last);
        assert(inner.push(last).to_multiset() =~= sorted.to_multiset().insert(x));
        if (forall|i: int| 0 <= i < sorted.len() ==> #[trigger] sorted[i].2 >= b) && x.2 >= b {
            assert(forall|i: int| 0 <= i < init.len() ==> #[trigger] init[i].2 >= b);
        }
    }
}

/// Results put in order by count come most frequent first and are the same
/// results.
pub proof fn law_results_are_most_frequent_first(rs: Seq<(Seq<char>, Seq<ParamView>, nat)>)
    ensures
        most_frequent_first(sort_by_count(rs)),
        sort_by_count(rs).to_multiset() == rs.to_multiset(),
    decreases rs.len(),
{
    broadcast use vstd::multiset::group_multiset_axioms;
    broadcast use vstd::seq_lib::group_to_multiset_ensures;
    broadcast use vstd::multiset::lemma_multiset_empty_len;

    if rs.len() == 0 {
        assert(sort_by_count(rs) =~= rs);
    } else {
        law_results_are_most_frequent_first(rs.drop_last());
        lemma_insert_by_count(sort_by_count(rs.drop_last()), rs.last(), 0);
        assert(rs =~= rs.drop_last().push(rs.last()));
        to_multiset_build(rs.drop_last(), rs.last());
    }
}

/// The analysis of method–path pairs: the routes of each method, most
/// frequent first.
pub open spec fn analysis(a: PathAnalyzer, pairs: Seq<(Seq<char>, Seq<char>)>) -> Seq<(Seq<char>, Seq<ParamView>, nat)> {
    let gs = method_groups(pairs, pairs.len() as int);
    sort_by_count(all_results(a, gs, gs.len() as int))
}

/// Inserts `x` as `insert_by_count` describes.
fn insert_result(sorted: &mut Vec<PathAnalysisResult>, x: PathAnalysisResult)
    ensures
        results_view(final(sorted)@) == insert_by_count(results_view(old(sorted)@), result_view(x)),
{
    let ghost s0 = results_view(sorted@);
    let mut p = sorted.len();
    assert(s0.subrange(0, p as int) =~= s0);
    assert(s0.subrange(p as int, s0.len() as int) =~= Seq::<(Seq<char>, Seq<ParamView>, nat)>::empty());
    while p > 0 && sorted[p - 1].occurrence_count < x.occurrence_count
        invariant
            p <= sorted@.len(),
            results_view(sorted@) == s0,
            s0.len() == sorted@.len(),
            insert_by_count(s0, result_view(x)) == insert_by_count(s0.subrange(0, p as int), result_view(x)) + s0.subrange(
                p as int,
                s0.len() as int,
            ),
        decreases p,
    {
        let ghost sub = s0.subrange(0, p as int);
        assert(sub.drop_last() =~= s0.subrange(0, p - 1));
        assert(sub.last() == s0[p - 1]);
        assert(s0.subrange(p - 1, s0.len() as int) =~= seq![s0[p - 1]] + s0.subrange(p as int, s0.len() as int));
        p = p - 1;
    }
    proof {
        let sub = s0.subrange(0, p as int);
        if p > 0 {
            assert(sub.last() == s0[p - 1]);
        }
        assert(insert_by_count(sub, result_view(x)) =~= sub.push(result_view(x)));
    }
    let ghost xv = result_view(x);
    sorted.insert(p, x);
    assert(results_view(sorted@) =~= s0.subrange(0, p as int).push(xv) + s0.subrange(p as int, s0.len() as int));
}

/// The group whose segment lists have `c` segments.
fn find_length_group(groups: &Vec<Vec<Vec<String>>>, c: usize) -> (r: Option<usize>)
    requires
        uniform_groups(groups@.map_values(|h: Vec<Vec<String>>| group_view(h@))),
    ensures
        match r {
            Some(g) => length_group_of(groups@.map_values(|h: Vec<Vec<String>>| group_view(h@)), c as nat, 0) == Some(g as int),
            None => length_group_of(groups@.map_values(|h: Vec<Vec<String>>| group_view(h@)), c as nat, 0) is None,
        },
{
    let ghost gs = groups@.map_values(|h: Vec<Vec<String>>| group_view(h@));
    let mut g: usize = 0;
    while g < groups.len()
        invariant
            g <= groups@.len(),
            gs == groups@.map_values(|h: Vec<Vec<String>>| group_view(h@)),
            gs.len() == groups@.len(),
            uniform_groups(gs),
            length_group_of(gs, c as nat, 0) == length_group_of(gs, c as nat, g as int),
        decreases groups.len() - g,
    {
        assert(gs[g as int] == group_view(groups@[g as int]@));
        assert(gs[g as int].len() > 0);
        assert(gs[g as int][0] == views_of(groups@[g as int]@[0]@));
        if groups[g][0].len() == c {
            return Some(g);
        }
        g = g + 1;
    }
    None
}

impl PathAnalyzer {
    /// The routes of paths of one method: one per number of segments, in
    /// order of first appearance.
    pub fn analyze_paths(&self, paths: &Vec<String>) -> (r: Vec<PathAnalysisResult>)
        ensures
            results_view(r@) == paths_results(*self, views_of(paths@)),
    {
        let ghost segs_all = views_of(paths@).map_values(|p: Seq<char>| path_segments(p));
        let mut groups: Vec<Vec<Vec<String>>> = Vec::new();
        let mut k: usize = 0;
        assert(groups@.map_values(|g: Vec<Vec<String>>| group_view(g@)) =~= Seq::<Seq<Seq<Seq<char>>>>::empty());
        while k < paths.len()
            invariant
                k <= paths@.len(),
                segs_all == views_of(paths@).map_values(|p: Seq<char>| path_segments(p)),
                segs_all.len() == paths@.len(),
                groups@.map_values(|g: Vec<Vec<String>>| group_view(g@)) == length_groups(segs_all, k as int),
            decreases paths.len() - k,
        {
            let segs = segments_of(paths[k].as_str());
            assert(views_of(segs@) == segs_all[k as int]);
            let ghost gs = groups@.map_values(|g: Vec<Vec<String>>| group_view(g@));
            proof { lemma_length_groups_uniform(segs_all, k as int); }
            let found = find_length_group(&groups, segs.len());
            let ghost sv = views_of(segs@);
            match found {
                Some(g) => {
                    proof { lemma_length_group_of(gs, sv.len(), 0); }
                    let mut inner: Vec<Vec<String>> = Vec::new();
                    groups.set_and_swap(g, &mut inner);
                    let ghost old_inner = inner@;
                    assert(group_view(old_inner) == gs[g as int]);
                    inner.push(segs);
                    assert(group_view(inner@) =~= group_view(old_inner).push(sv));
                    groups.set_and_swap(g, &mut inner);
                    assert(groups@.map_values(|h: Vec<Vec<String>>| group_view(h@)) =~= gs.update(g as int, gs[g as int].push(sv)));
                },
                None => {
                    let mut fresh: Vec<Vec<String>> = Vec::new();
                    fresh.push(segs);
                    groups.push(fresh);
                    assert(group_view(fresh@) =~= seq![sv]);
                    assert(groups@.map_values(|h: Vec<Vec<String>>| group_view(h@)) =~= gs.push(seq![sv]));
                },
            }
            k = k + 1;
        }
        let ghost gs_all = groups@.map_values(|g: Vec<Vec<String>>| group_view(g@));
        proof { lemma_length_groups_uniform(segs_all, segs_all.len() as int); }
        let mut out: Vec<PathAnalysisResult> = Vec::new();
        let mut i: usize = 0;
        while i < groups.len()
            invariant
                i <= groups@.len(),
                gs_all == groups@.map_values(|g: Vec<Vec<String>>| group_view(g@)),
                gs_all.len() == groups@.len(),
                uniform_groups(gs_all),
                results_view(out@) == gs_all.map_values(|g: Seq<Seq<Seq<char>>>| group_result(*self, g)).subrange(0, i as int),
            decreases groups.len() - i,
        {
            assert(gs_all[i as int] == group_view(groups@[i as int]@));
            assert(groups@[i as int]@.len() > 0);
            assert forall|j: int| 0 <= j < groups@[i as int]@.len() implies (#[trigger] groups@[i as int]@[j])@.len()
                == groups@[i as int]@[0]@.len() by {
                assert(gs_all[i as int][j] == views_of(groups@[i as int]@[j]@));
                assert(gs_all[i as int][0] == views_of(groups@[i as int]@[0]@));
            }
            let r = self.analyze_group(&groups[i]);
            let ghost before = out@;
            out.push(r);
            assert(results_view(out@) =~= results_view(before).push(result_view(r)));
            assert(results_view(out@) =~= gs_all.map_values(|g: Seq<Seq<Seq<char>>>| group_result(*self, g)).subrange(0, i + 1));
            i = i + 1;
        }
        assert(gs_all.map_values(|g: Seq<Seq<Seq<char>>>| group_result(*self, g)).subrange(0, i as int) =~= gs_all.map_values(
            |g: Seq<Seq<Seq<char>>>| group_result(*self, g),
        ));
        out
    }
}


/// Method–path pairs as views.
pub open spec fn pair_views(v: Seq<(String, String)>) -> Seq<(Seq<char>, Seq<char>)> {
    v.map_values(|e: (String, String)| (e.0@, e.1@))
}

/// Method groups as views.
pub open spec fn method_groups_view(v: Seq<(String, Vec<String>)>) -> Seq<(Seq<char>, Seq<Seq<char>>)> {
    v.map_values(|e: (String, Vec<String>)| (e.0@, views_of(e.1@)))
}

/// The group of method `m`.
fn find_method_group(groups: &Vec<(String, Vec<String>)>, m: &str) -> (r: Option<usize>)
    ensures
        match r {
            Some(g) => method_group_of(method_groups_view(groups@), m@, 0) == Some(g as int),
            None => method_group_of(method_groups_view(groups@), m@, 0) is None,
        },
{
    let ghost gs = method_groups_view(groups@);
    let mut g: usize = 0;
    while g < groups.len()
        invariant
            g <= groups@.len(),
            gs == method_groups_view(groups@),
            gs.len() == groups@.len(),
            method_group_of(gs, m@, 0) == method_group_of(gs, m@, g as int),
        decreases groups.len() - g,
    {
        assert(gs[g as int].0 == groups@[g as int].0@);
        if str_eq(groups[g].0.as_str(), m) {
            return Some(g);
        }
        g = g + 1;
    }
    None
}

impl PathAnalyzer {
    /// The routes of method–path pairs: for each method (in order of first
    /// appearance) its routes, prefixed by the method; then all ordered by
    /// how many paths each route matched, most first.
    pub fn analyze(&self, paths: &[(String, String)]) -> (r: Vec<PathAnalysisResult>)
        ensures
            results_view(r@) == analysis(*self, pair_views(paths@)),
    {
        let ghost pv = pair_views(paths@);
        let mut groups: Vec<(String, Vec<String>)> = Vec::new();
        let mut k: usize = 0;
        assert(method_groups_view(groups@) =~= Seq::<(Seq<char>, Seq<Seq<char>>)>::empty());
        while k < paths.len()
            invariant
                k <= paths@.len(),
                pv == pair_views(paths@),
                pv.len() == paths@.len(),
                method_groups_view(groups@) == method_groups(pv, k as int),
            decreases paths.len() - k,
        {
            let ghost gs = method_groups_view(groups@);
            assert(pv[k as int] == (paths@[k as int].0@, paths@[k as int].1@));
            match find_method_group(&groups, paths[k].0.as_str()) {
                Some(g) => {
                    proof { lemma_method_group_of(gs, paths@[k as int].0@, 0); }
                    let mut entry: (String, Vec<String>) = (String::new(), Vec::new());
                    groups.set_and_swap(g, &mut entry);
                    let ghost old_entry = entry;
                    assert((old_entry.0@, views_of(old_entry.1@)) == gs[g as int]);
                    entry.1.push(paths[k].1.clone());
                    assert(views_of(entry.1@) =~= views_of(old_entry.1@).push(paths@[k as int].1@));
                    groups.set_and_swap(g, &mut entry);
                    assert(method_groups_view(groups@) =~= gs.update(
                        g as int,
                        (gs[g as int].0, gs[g as int].1.push(pv[k as int].1)),
                    ));
                },
                None => {
                    let mut ps: Vec<String> = Vec::new();
                    ps.push(paths[k].1.clone());
                    assert(views_of(ps@) =~= seq![paths@[k as int].1@]);
                    groups.push((paths[k].0.clone(), ps));
                    assert(method_groups_view(groups@) =~= gs.push((pv[k as int].0, seq![pv[k as int].1])));
                },
            }
            k = k + 1;
        }
        let ghost gv = method_groups_view(groups@);
        let mut all: Vec<PathAnalysisResult> = Vec::new();
        let mut g: usize = 0;
        assert(results_view(all@) =~= Seq::<(Seq<char>, Seq<ParamView>, nat)>::empty());
        while g < groups.len()
            invariant
                g <= groups@.len(),
                gv == method_groups_view(groups@),
                gv.len() == groups@.len(),
                results_view(all@) == all_results(*self, gv, g as int),
            decreases groups.len() - g,
        {
            let rs = self.analyze_paths(&groups[g].1);
            let ghost want = paths_results(*self, views_of(groups@[g as int].1@)).map_values(
                |r: (Seq<char>, Seq<ParamView>, nat)| prefixed(gv[g as int].0, r),
            );
            let ghost base = results_view(all@);
            let ghost mut i: int = 0;
            let mut rs = rs;
            let ghost rv = results_view(rs@);
            let mut taken: Vec<PathAnalysisResult> = Vec::new();
            while rs.len() > 0
                invariant
                    0 <= i,
                    i + rs@.len() == rv.len(),
                    results_view(rs@) == rv.subrange(i as int, rv.len() as int),
                    results_view(all@) == base + rv.subrange(0, i as int).map_values(
                        |r: (Seq<char>, Seq<ParamView>, nat)| prefixed(gv[g as int].0, r),
                    ),
                    g < groups@.len(),
                    gv == method_groups_view(groups@),
                decreases rs.len(),
            {
                let ghost old_rs = rs@;
                let mut r = rs.remove(0);
                assert(rs@ =~= old_rs.subrange(1, old_rs.len() as int));
                assert(rv.subrange(i as int, rv.len() as int)[0] == result_view(r));
                assert(results_view(rs@) =~= results_view(old_rs).subrange(1, old_rs.len() as int));
                assert(results_view(rs@) =~= rv.subrange(i + 1, rv.len() as int));
                let mut route = groups[g].0.clone();
                route.append(" ");
                route.append(r.route.as_str());
                r.route = route;
                let ghost before = all@;
                let ghost rview = result_view(r);
                all.push(r);
                assert(results_view(all@) =~= results_view(before).push(rview));
                assert(rv.subrange(0, i + 1).map_values(|x: (Seq<char>, Seq<ParamView>, nat)| prefixed(gv[g as int].0, x))
                    =~= rv.subrange(0, i as int).map_values(|x: (Seq<char>, Seq<ParamView>, nat)| prefixed(gv[g as int].0, x)).push(rview));
                proof { i = i + 1; }
            }
            assert(rv.subrange(0, i as int) =~= rv);
            g = g + 1;
        }
        let mut sorted: Vec<PathAnalysisResult> = Vec::new();
        let ghost av = results_view(all@);
        assert(results_view(sorted@) =~= sort_by_count(av.subrange(0, 0)));
        let mut all = all;
        let ghost mut i: int = 0;
        while all.len() > 0
            invariant
                0 <= i,
                i + all@.len() == av.len(),
                results_view(all@) == av.subrange(i as int, av.len() as int),
                results_view(sorted@) == sort_by_count(av.subrange(0, i as int)),
            decreases all.len(),
        {
            let ghost old_all = all@;
            let x = all.remove(0);
            assert(all@ =~= old_all.subrange(1, old_all.len() as int));
            assert(av.subrange(i as int, av.len() as int)[0] == result_view(x));
            assert(results_view(all@) =~= results_view(old_all).subrange(1, old_all.len() as int));
            assert(results_view(all@) =~= av.subrange(i + 1, av.len() as int));
            assert(av.subrange(0, i + 1).drop_last() =~= av.subrange(0, i as int));
            assert(av.subrange(0, i + 1).last() == result_view(x));
            insert_result(&mut sorted, x);
            proof { i = i + 1; }
        }
        assert(av.subrange(0, i as int) =~= av);
        sorted
    }
}


impl Default for PathAnalyzer {
    fn default() -> (a: Self)
        ensures
            a.min_unique_values == 2,
            a.max_unique_percent == 80,
    {
        Self::new()
    }
}

} // verus!
