//! Hubs and projects, with each hub's ordered list of project ids; seeded
//! with one default hub that owns one default project.
use vstd::prelude::*;
use vstd::string::*;
use dashmap::DashMap;
use crate::keyed::{DeepCopy, filed_by_key, keys_unique, listed_entries, listing, table};

verus! {

pub struct HubInfo {
    pub id: String,
    pub name: String,
    pub region: String,
}

impl DeepCopy for HubInfo {
    fn deep_copy(&self) -> (r: HubInfo) {
        HubInfo { id: self.id.clone(), name: self.name.clone(), region: self.region.clone() }
    }
}

pub struct ProjectInfo {
    pub id: String,
    pub hub_id: String,
    pub name: String,
}

impl DeepCopy for ProjectInfo {
    fn deep_copy(&self) -> (r: ProjectInfo) {
        ProjectInfo { id: self.id.clone(), hub_id: self.hub_id.clone(), name: self.name.clone() }
    }
}

pub open spec fn by_hub_id() -> spec_fn(HubInfo) -> Seq<char> {
    |h: HubInfo| h.id@
}

pub open spec fn by_project_id() -> spec_fn(ProjectInfo) -> Seq<char> {
    |p: ProjectInfo| p.id@
}

pub open spec fn default_hub_id() -> Seq<char> {
    "b.default-hub"@
}

pub open spec fn default_project_id() -> Seq<char> {
    "b.default-project"@
}

/// Hub id to hub.
pub type HubTable = DashMap<String, HubInfo>;

/// Project id to project.
pub type ProjectTable = DashMap<String, ProjectInfo>;

/// Hub id to the ids of its projects, in order.
pub type HubProjectTable = DashMap<String, Vec<String>>;

/// What a hub table holds.
pub uninterp spec fn hub_entries(m: DashMap<String, HubInfo>) -> Map<Seq<char>, HubInfo>;

/// What a project table holds.
pub uninterp spec fn project_entries(m: DashMap<String, ProjectInfo>) -> Map<Seq<char>, ProjectInfo>;

/// What a hub-to-projects table holds, each id list as its ids' characters.
pub uninterp spec fn hub_project_entries(m: DashMap<String, Vec<String>>) -> Map<Seq<char>, Seq<Seq<char>>>;

pub open spec fn id_views(ids: Seq<String>) -> Seq<Seq<char>> {
    ids.map_values(|s: String| s@)
}

/// Relies on `DashMap::new`: a map with no entries.
#[verifier::external_body]
fn new_hub_table() -> (r: HubTable)
    ensures
        hub_entries(r).dom() == Set::<Seq<char>>::empty(),
{
    DashMap::new()
}

/// Relies on `DashMap::new`: a map with no entries.
#[verifier::external_body]
fn new_project_table() -> (r: ProjectTable)
    ensures
        project_entries(r).dom() == Set::<Seq<char>>::empty(),
{
    DashMap::new()
}

/// Relies on `DashMap::new`: a map with no entries.
#[verifier::external_body]
fn new_hub_project_table() -> (r: HubProjectTable)
    ensures
        hub_project_entries(r).dom() == Set::<Seq<char>>::empty(),
{
    DashMap::new()
}

/// Relies on `DashMap::get`: the entry stored under the key, if any.
#[verifier::external_body]
fn hub_at(m: &HubTable, id: &str) -> (r: Option<HubInfo>)
    ensures
        match r {
            Some(h) => hub_entries(*m).contains_key(id@) && hub_entries(*m)[id@] == h,
            None => !hub_entries(*m).contains_key(id@),
        },
{
    m.get(id).map(|e| e.value().deep_copy())
}

/// Relies on `DashMap::get`: the entry stored under the key, if any.
#[verifier::external_body]
fn project_at(m: &ProjectTable, id: &str) -> (r: Option<ProjectInfo>)
    ensures
        match r {
            Some(p) => project_entries(*m).contains_key(id@) && project_entries(*m)[id@] == p,
            None => !project_entries(*m).contains_key(id@),
        },
{
    m.get(id).map(|e| e.value().deep_copy())
}

/// Relies on `DashMap::get`: the entry stored under the key, if any, copied.
#[verifier::external_body]
fn project_ids_at(m: &HubProjectTable, hub: &str) -> (r: Option<Vec<String>>)
    ensures
        match r {
            Some(ids) => hub_project_entries(*m).contains_key(hub@) && hub_project_entries(*m)[hub@] == id_views(ids@),
            None => !hub_project_entries(*m).contains_key(hub@),
        },
{
    m.get(hub).map(|e| e.value().clone())
}

/// Relies on `DashMap::insert`: the key now maps to the value, others are kept.
#[verifier::external_body]
fn store_hub(m: &mut HubTable, id: String, h: HubInfo)
    ensures
        hub_entries(*final(m)) == hub_entries(*old(m)).insert(id@, h),
{
    m.insert(id, h);
}

/// Relies on `DashMap::insert`: the key now maps to the value, others are kept.
#[verifier::external_body]
fn store_project(m: &mut ProjectTable, id: String, p: ProjectInfo)
    ensures
        project_entries(*final(m)) == project_entries(*old(m)).insert(id@, p),
{
    m.insert(id, p);
}

/// Relies on `DashMap::insert`: the key now maps to the value, others are kept.
#[verifier::external_body]
fn store_project_ids(m: &mut HubProjectTable, hub: String, ids: Vec<String>)
    ensures
        hub_project_entries(*final(m)) == hub_project_entries(*old(m)).insert(hub@, id_views(ids@)),
{
    m.insert(hub, ids);
}

/// Relies on `DashMap::iter`: it visits every entry once, with its key.
#[verifier::external_body]
fn hub_pairs(m: &HubTable) -> (r: Vec<(String, HubInfo)>)
    ensures
        keys_unique(r@),
        table(r@) == hub_entries(*m),
{
    m.iter().map(|e| (e.key().deep_copy(), e.value().deep_copy())).collect()
}

pub struct ProjectState {
    hubs: HubTable,
    projects: ProjectTable,
    hub_projects: HubProjectTable,
}

/// The projects that `ids` name, in order, skipping ids with no project.
pub open spec fn projects_named(ids: Seq<Seq<char>>, projects: Map<Seq<char>, ProjectInfo>) -> Seq<ProjectInfo>
    decreases ids.len(),
{
    if ids.len() == 0 {
        Seq::empty()
    } else {
        let rest = projects_named(ids.drop_last(), projects);
        if projects.contains_key(ids.last()) { rest.push(projects[ids.last()]) } else { rest }
    }
}

/// The state as it is created: the default hub (`Default Hub`, region `US`)
/// owning the default project (`Default Project`), and nothing else.
pub open spec fn seeded(s: ProjectState) -> bool {
    &&& s.wf()
    &&& s.hubs().dom() == set![default_hub_id()]
    &&& s.hubs()[default_hub_id()].id@ == default_hub_id()
    &&& s.hubs()[default_hub_id()].name@ == "Default Hub"@
    &&& s.hubs()[default_hub_id()].region@ == "US"@
    &&& s.projects().dom() == set![default_project_id()]
    &&& s.projects()[default_project_id()].id@ == default_project_id()
    &&& s.projects()[default_project_id()].hub_id@ == default_hub_id()
    &&& s.projects()[default_project_id()].name@ == "Default Project"@
    &&& s.hub_projects().dom() == set![default_hub_id()]
    &&& s.hub_projects()[default_hub_id()] == seq![default_project_id()]
}

impl ProjectState {
    /// Hub id to hub.
    pub closed spec fn hubs(&self) -> Map<Seq<char>, HubInfo> {
        hub_entries(self.hubs)
    }

    /// Project id to project.
    pub closed spec fn projects(&self) -> Map<Seq<char>, ProjectInfo> {
        project_entries(self.projects)
    }

    /// Hub id to the ids of its projects, in order.
    pub closed spec fn hub_projects(&self) -> Map<Seq<char>, Seq<Seq<char>>> {
        hub_project_entries(self.hub_projects)
    }

    pub closed spec fn wf(&self) -> bool {
        filed_by_key(self.hubs(), by_hub_id()) && filed_by_key(self.projects(), by_project_id())
    }

    pub fn new() -> (r: ProjectState)
        ensures
            seeded(r),
    {
        let mut state = ProjectState {
            hubs: new_hub_table(),
            projects: new_project_table(),
            hub_projects: new_hub_project_table(),
        };
        state.init_defaults();
        state
    }

    fn init_defaults(&mut self)
        requires
            old(self).hubs().dom() == Set::<Seq<char>>::empty(),
            old(self).projects().dom() == Set::<Seq<char>>::empty(),
            old(self).hub_projects().dom() == Set::<Seq<char>>::empty(),
        ensures
            seeded(*final(self)),
    {
        let hub = HubInfo {
            id: String::from_str("b.default-hub"),
            name: String::from_str("Default Hub"),
            region: String::from_str("US"),
        };
        let project = ProjectInfo {
            id: String::from_str("b.default-project"),
            hub_id: String::from_str("b.default-hub"),
            name: String::from_str("Default Project"),
        };
        let mut ids: Vec<String> = Vec::new();
        ids.push(String::from_str("b.default-project"));
        store_hub(&mut self.hubs, String::from_str("b.default-hub"), hub);
        store_project(&mut self.projects, String::from_str("b.default-project"), project);
        store_project_ids(&mut self.hub_projects, String::from_str("b.default-hub"), ids);
        proof {
            assert(self.hubs().dom() =~= set![default_hub_id()]);
            assert(self.projects().dom() =~= set![default_project_id()]);
            assert(self.hub_projects().dom() =~= set![default_hub_id()]);
            assert(self.hub_projects()[default_hub_id()] =~= seq![default_project_id()]);
        }
    }

    /// A snapshot of all hubs, each once.
    pub fn list_hubs(&self) -> (r: Vec<HubInfo>)
        requires
            self.wf(),
        ensures
            listing(self.hubs(), r@, by_hub_id()),
    {
        let pairs = hub_pairs(&self.hubs);
        listed_entries(&pairs, Ghost(self.hubs()), Ghost(by_hub_id()))
    }

    /// The hub `hub_id`.
    pub fn get_hub(&self, hub_id: &str) -> (r: Option<HubInfo>)
        ensures
            match r {
                Some(h) => self.hubs().contains_key(hub_id@) && self.hubs()[hub_id@] == h,
                None => !self.hubs().contains_key(hub_id@),
            },
    {
        hub_at(&self.hubs, hub_id)
    }

    /// The projects of hub `hub_id`, in the hub's order.
    pub fn list_projects(&self, hub_id: &str) -> (r: Vec<ProjectInfo>)
        ensures
            r@ == (if self.hub_projects().contains_key(hub_id@) {
                projects_named(self.hub_projects()[hub_id@], self.projects())
            } else {
                Seq::empty()
            }),
    {
        let mut out: Vec<ProjectInfo> = Vec::new();
        match project_ids_at(&self.hub_projects, hub_id) {
            Some(ids) => {
                let ghost names = ids@.map_values(|s: String| s@);
                assert(names == id_views(ids@));
                let mut i: usize = 0;
                while i < ids.len()
                    invariant
                        i <= ids@.len(),
                        names == ids@.map_values(|s: String| s@),
                        out@ == projects_named(names.subrange(0, i as int), self.projects()),
                    decreases ids@.len() - i,
                {
                    proof {
                        assert(names.subrange(0, i + 1).drop_last() =~= names.subrange(0, i as int));
                    }
                    match project_at(&self.projects, ids[i].as_str()) {
                        Some(p) => out.push(p),
                        None => {},
                    }
                    i = i + 1;
                }
                assert(names.subrange(0, ids@.len() as int) =~= names);
                out
            },
            None => {
                assert(out@ =~= Seq::<ProjectInfo>::empty());
                out
            },
        }
    }

    /// The project `project_id`.
    pub fn get_project(&self, project_id: &str) -> (r: Option<ProjectInfo>)
        ensures
            match r {
                Some(p) => self.projects().contains_key(project_id@) && self.projects()[project_id@] == p,
                None => !self.projects().contains_key(project_id@),
            },
    {
        project_at(&self.projects, project_id)
    }
}

/// Listing the hubs of a freshly created state gives exactly one hub, the
/// default one.
pub proof fn lemma_seeded_hub_listing(s: ProjectState, listed: Seq<HubInfo>)
    requires
        seeded(s),
        listing(s.hubs(), listed, by_hub_id()),
    ensures
        listed.len() == 1,
        listed[0].id@ == default_hub_id(),
{
    assert(s.hubs().dom().contains(default_hub_id()));
    assert(s.hubs().contains_key(default_hub_id()));
    let i = choose|i: int| 0 <= i < listed.len() && by_hub_id()(#[trigger] listed[i]) == default_hub_id();
    assert forall|j: int| 0 <= j < listed.len() implies by_hub_id()(#[trigger] listed[j]) == default_hub_id() by {
        assert(s.hubs().contains_key(by_hub_id()(listed[j])));
        assert(s.hubs().dom().contains(by_hub_id()(listed[j])));
    }
    if listed.len() > 1 {
        assert(by_hub_id()(listed[0]) == by_hub_id()(listed[1]));
    }
}

} // verus!
