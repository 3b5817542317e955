//! The dispatcher's route table: the synthesized routes first, then the fixed
//! stateful endpoints, keeping the first route of each (method, pattern).
use vstd::prelude::*;
use vstd::string::*;
use crate::config::MockMode;
use crate::openapi::{HttpMethod, OpenApiSpec, RouteDefinition, RouteView};
use crate::routes::{all_routes, synthesize_routes, views};
use crate::state::manager::StateManager;
use crate::text::same_text;

verus! {

/// The hand-declared endpoints backed by the resource stores.
#[derive(Clone, Copy, Debug, PartialEq, Eq, Structural)]
pub enum StatefulEndpoint {
    IssueToken,
    ListBuckets,
    CreateBucket,
    ListObjects,
    ListHubs,
    GetHub,
    ListProjects,
    StartTranslation,
    GetManifest,
    ListIssues,
    CreateIssue,
    ListHooks,
    CreateHook,
    DeleteHook,
}

/// What serves a route: the synthesized route of that index, or a stateful
/// endpoint.
#[derive(Clone, Copy, Debug, PartialEq, Eq, Structural)]
pub enum RouteTarget {
    Synthesized(usize),
    Stateful(StatefulEndpoint),
}

pub struct DispatchEntry {
    pub method: HttpMethod,
    pub pattern: String,
    pub target: RouteTarget,
}

pub type Candidate = (HttpMethod, Seq<char>, RouteTarget);

pub open spec fn entry_views(es: Seq<DispatchEntry>) -> Seq<Candidate> {
    es.map_values(|e: DispatchEntry| (e.method, e.pattern@, e.target))
}

/// The synthesized routes as candidates, each pointing at its index.
pub open spec fn synthesized_candidates(routes: Seq<RouteView>) -> Seq<Candidate> {
    Seq::new(routes.len(), |i: int| (routes[i].method, routes[i].path_pattern, RouteTarget::Synthesized(i as usize)))
}

/// The fixed stateful endpoints, in registration order.
pub open spec fn fixed_candidates() -> Seq<Candidate> {
    seq![
        (HttpMethod::Post, "/authentication/v2/token"@, RouteTarget::Stateful(StatefulEndpoint::IssueToken)),
        (HttpMethod::Get, "/oss/v2/buckets"@, RouteTarget::Stateful(StatefulEndpoint::ListBuckets)),
        (HttpMethod::Post, "/oss/v2/buckets"@, RouteTarget::Stateful(StatefulEndpoint::CreateBucket)),
        (HttpMethod::Get, "/oss/v2/buckets/:bucket_key/objects"@, RouteTarget::Stateful(StatefulEndpoint::ListObjects)),
        (HttpMethod::Get, "/project/v1/hubs"@, RouteTarget::Stateful(StatefulEndpoint::ListHubs)),
        (HttpMethod::Get, "/project/v1/hubs/:hub_id"@, RouteTarget::Stateful(StatefulEndpoint::GetHub)),
        (HttpMethod::Get, "/project/v1/hubs/:hub_id/projects"@, RouteTarget::Stateful(StatefulEndpoint::ListProjects)),
        (HttpMethod::Post, "/modelderivative/v2/designdata/job"@, RouteTarget::Stateful(StatefulEndpoint::StartTranslation)),
        (HttpMethod::Get, "/modelderivative/v2/designdata/:urn/manifest"@, RouteTarget::Stateful(StatefulEndpoint::GetManifest)),
        (HttpMethod::Get, "/construction/issues/v1/projects/:project_id/issues"@, RouteTarget::Stateful(StatefulEndpoint::ListIssues)),
        (HttpMethod::Post, "/construction/issues/v1/projects/:project_id/issues"@, RouteTarget::Stateful(StatefulEndpoint::CreateIssue)),
        (HttpMethod::Get, "/webhooks/v1/systems/:system/events/:event/hooks"@, RouteTarget::Stateful(StatefulEndpoint::ListHooks)),
        (HttpMethod::Post, "/webhooks/v1/systems/:system/events/:event/hooks"@, RouteTarget::Stateful(StatefulEndpoint::CreateHook)),
        (HttpMethod::Delete, "/webhooks/v1/systems/:system/events/:event/hooks/:hook_id"@, RouteTarget::Stateful(StatefulEndpoint::DeleteHook)),
    ]
}

pub open spec fn occurs(c: Seq<Candidate>, method: HttpMethod, pattern: Seq<char>) -> bool {
    exists|j: int| 0 <= j < c.len() && (#[trigger] c[j]).0 == method && c[j].1 == pattern
}

/// The candidates whose (method, pattern) no earlier candidate has.
pub open spec fn first_of_each(c: Seq<Candidate>) -> Seq<Candidate>
    decreases c.len(),
{
    if c.len() == 0 {
        c
    } else {
        let kept = first_of_each(c.drop_last());
        if occurs(c.drop_last(), c.last().0, c.last().1) { kept } else { kept.push(c.last()) }
    }
}

/// The route table for a list of synthesized routes.
pub open spec fn route_table(routes: Seq<RouteView>) -> Seq<Candidate> {
    first_of_each(synthesized_candidates(routes) + fixed_candidates())
}

proof fn lemma_first_of_each_occurs(c: Seq<Candidate>, method: HttpMethod, pattern: Seq<char>)
    ensures
        occurs(first_of_each(c), method, pattern) == occurs(c, method, pattern),
    decreases c.len(),
{
    if c.len() > 0 {
        let p = c.drop_last();
        lemma_first_of_each_occurs(p, method, pattern);
        lemma_first_of_each_occurs(p, c.last().0, c.last().1);
        let kept = first_of_each(p);
        if occurs(c, method, pattern) {
            let j = choose|j: int| 0 <= j < c.len() && (#[trigger] c[j]).0 == method && c[j].1 == pattern;
            if j < p.len() {
                assert(p[j] == c[j]);
            }
        }
        if occurs(p, method, pattern) {
            let j = choose|j: int| 0 <= j < p.len() && (#[trigger] p[j]).0 == method && p[j].1 == pattern;
            assert(c[j] == p[j]);
        }
        if !occurs(p, c.last().0, c.last().1) {
            let n = kept.push(c.last());
            if occurs(kept, method, pattern) {
                let j = choose|j: int| 0 <= j < kept.len() && (#[trigger] kept[j]).0 == method && kept[j].1 == pattern;
                assert(n[j] == kept[j]);
            }
            if occurs(n, method, pattern) {
                let j = choose|j: int| 0 <= j < n.len() && (#[trigger] n[j]).0 == method && n[j].1 == pattern;
                if j < kept.len() {
                    assert(n[j] == kept[j]);
                } else {
                    assert(c[c.len() - 1] == c.last());
                }
            }
            if method == c.last().0 && pattern == c.last().1 {
                assert(n[kept.len() as int] == c.last());
                assert(c[c.len() - 1] == c.last());
            }
        }
    }
}

fn add_candidate(
    out: &mut Vec<DispatchEntry>,
    Ghost(seen): Ghost<Seq<Candidate>>,
    method: HttpMethod,
    pattern: String,
    target: RouteTarget,
)
    requires
        entry_views(old(out)@) == first_of_each(seen),
    ensures
        entry_views(final(out)@) == first_of_each(seen.push((method, pattern@, target))),
{
    let ghost c = seen.push((method, pattern@, target));
    assert(c.drop_last() =~= seen);
    proof {
        lemma_first_of_each_occurs(seen, method, pattern@);
    }
    let mut i: usize = 0;
    while i < out.len()
        invariant
            i <= out@.len(),
            c == seen.push((method, pattern@, target)),
            entry_views(out@) == first_of_each(seen),
            forall|j: int| 0 <= j < i ==> !((#[trigger] out@[j]).method == method && out@[j].pattern@ == pattern@),
        decreases out@.len() - i,
    {
        if out[i].method == method && same_text(out[i].pattern.as_str(), pattern.as_str()) {
            proof {
                lemma_first_of_each_occurs(seen, method, pattern@);
                assert(c.drop_last() =~= seen);
                let kept = first_of_each(seen);
                assert(entry_views(out@)[i as int] == (out@[i as int].method, out@[i as int].pattern@, out@[i as int].target));
                assert(kept[i as int].0 == method && kept[i as int].1 == pattern@);
                assert(occurs(kept, method, pattern@));
                assert(occurs(seen, method, pattern@));
                assert(c.last() == (method, pattern@, target));
                assert(first_of_each(c) == kept);
            }
            return;
        }
        i = i + 1;
    }
    proof {
        lemma_first_of_each_occurs(seen, method, pattern@);
        assert(c.drop_last() =~= seen);
        let kept = first_of_each(seen);
        if occurs(kept, method, pattern@) {
            let j = choose|j: int| 0 <= j < kept.len() && (#[trigger] kept[j]).0 == method && kept[j].1 == pattern@;
            assert(entry_views(out@)[j] == (out@[j].method, out@[j].pattern@, out@[j].target));
        }
    }
    let ghost before = out@;
    out.push(DispatchEntry { method, pattern, target });
    assert(entry_views(out@) =~= entry_views(before).push((method, pattern@, target)));
}

fn add_fixed(out: &mut Vec<DispatchEntry>, Ghost(seen): Ghost<Seq<Candidate>>, method: HttpMethod, pattern: &str, endpoint: StatefulEndpoint)
    requires
        entry_views(old(out)@) == first_of_each(seen),
    ensures
        entry_views(final(out)@) == first_of_each(seen.push((method, pattern@, RouteTarget::Stateful(endpoint)))),
{
    add_candidate(out, Ghost(seen), method, String::from_str(pattern), RouteTarget::Stateful(endpoint));
}

/// The dispatcher's route table: every synthesized route, then every fixed
/// stateful endpoint, each skipped where an earlier one has its method and
/// pattern. Synthesized routes win over the fixed ones.
pub fn build_route_table(routes: &Vec<RouteDefinition>) -> (r: Vec<DispatchEntry>)
    ensures
        entry_views(r@) == route_table(views(routes@)),
{
    let ghost synth = synthesized_candidates(views(routes@));
    let mut out: Vec<DispatchEntry> = Vec::new();
    let mut i: usize = 0;
    while i < routes.len()
        invariant
            i <= routes@.len(),
            synth == synthesized_candidates(views(routes@)),
            entry_views(out@) == first_of_each(synth.subrange(0, i as int)),
        decreases routes@.len() - i,
    {
        let ghost seen = synth.subrange(0, i as int);
        assert(synth.subrange(0, i + 1) =~= seen.push(synth[i as int]));
        add_candidate(&mut out, Ghost(seen), routes[i].method, routes[i].path_pattern.clone(), RouteTarget::Synthesized(i));
        i = i + 1;
    }
    assert(synth.subrange(0, routes@.len() as int) =~= synth);
    let ghost f = fixed_candidates();
    let ghost s = synth;
    add_fixed(&mut out, Ghost(s), HttpMethod::Post, "/authentication/v2/token", StatefulEndpoint::IssueToken);
    let ghost s = s.push(f[0]);
    add_fixed(&mut out, Ghost(s), HttpMethod::Get, "/oss/v2/buckets", StatefulEndpoint::ListBuckets);
    let ghost s = s.push(f[1]);
    add_fixed(&mut out, Ghost(s), HttpMethod::Post, "/oss/v2/buckets", StatefulEndpoint::CreateBucket);
    let ghost s = s.push(f[2]);
    add_fixed(&mut out, Ghost(s), HttpMethod::Get, "/oss/v2/buckets/:bucket_key/objects", StatefulEndpoint::ListObjects);
    let ghost s = s.push(f[3]);
    add_fixed(&mut out, Ghost(s), HttpMethod::Get, "/project/v1/hubs", StatefulEndpoint::ListHubs);
    let ghost s = s.push(f[4]);
    add_fixed(&mut out, Ghost(s), HttpMethod::Get, "/project/v1/hubs/:hub_id", StatefulEndpoint::GetHub);
    let ghost s = s.push(f[5]);
    add_fixed(&mut out, Ghost(s), HttpMethod::Get, "/project/v1/hubs/:hub_id/projects", StatefulEndpoint::ListProjects);
    let ghost s = s.push(f[6]);
    add_fixed(&mut out, Ghost(s), HttpMethod::Post, "/modelderivative/v2/designdata/job", StatefulEndpoint::StartTranslation);
    let ghost s = s.push(f[7]);
    add_fixed(&mut out, Ghost(s), HttpMethod::Get, "/modelderivative/v2/designdata/:urn/manifest", StatefulEndpoint::GetManifest);
    let ghost s = s.push(f[8]);
    add_fixed(&mut out, Ghost(s), HttpMethod::Get, "/construction/issues/v1/projects/:project_id/issues", StatefulEndpoint::ListIssues);
    let ghost s = s.push(f[9]);
    add_fixed(&mut out, Ghost(s), HttpMethod::Post, "/construction/issues/v1/projects/:project_id/issues", StatefulEndpoint::CreateIssue);
    let ghost s = s.push(f[10]);
    add_fixed(&mut out, Ghost(s), HttpMethod::Get, "/webhooks/v1/systems/:system/events/:event/hooks", StatefulEndpoint::ListHooks);
    let ghost s = s.push(f[11]);
    add_fixed(&mut out, Ghost(s), HttpMethod::Post, "/webhooks/v1/systems/:system/events/:event/hooks", StatefulEndpoint::CreateHook);
    let ghost s = s.push(f[12]);
    add_fixed(&mut out, Ghost(s), HttpMethod::Delete, "/webhooks/v1/systems/:system/events/:event/hooks/:hook_id", StatefulEndpoint::DeleteHook);
    let ghost s = s.push(f[13]);
    assert(s =~= synth + f);
    out
}

/// The verified core of a server: its synthesized routes, its route table
/// and, in stateful mode, its stores.
pub struct ServerCore {
    pub routes: Vec<RouteDefinition>,
    pub table: Vec<DispatchEntry>,
    pub state: Option<StateManager>,
}

impl ServerCore {
    /// Builds the core from the loaded documents. This never fails, also
    /// where no document was loaded.
    pub fn new(specs: &Vec<(String, OpenApiSpec)>, mode: MockMode) -> (r: ServerCore)
        ensures
            views(r.routes@) == all_routes(specs@),
            entry_views(r.table@) == route_table(views(r.routes@)),
            (r.state is Some) == (mode == MockMode::Stateful),
            r.state matches Some(s) ==> s.wf(),
    {
        let routes = synthesize_routes(specs);
        let table = build_route_table(&routes);
        let state = match mode {
            MockMode::Stateful => Some(StateManager::new()),
            MockMode::Stateless => None,
        };
        ServerCore { routes, table, state }
    }
}

/// With no documents loaded the synthesized route set is empty and the table
/// holds the fixed endpoints alone.
pub proof fn lemma_no_documents_fixed_table(specs: Seq<(String, OpenApiSpec)>)
    requires
        specs.len() == 0,
    ensures
        all_routes(specs).len() == 0,
        route_table(all_routes(specs)) == first_of_each(fixed_candidates()),
{
    assert(synthesized_candidates(all_routes(specs)) =~= Seq::<Candidate>::empty());
    assert(Seq::<Candidate>::empty() + fixed_candidates() =~= fixed_candidates());
}

} // verus!
