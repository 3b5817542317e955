//! Issues, scoped under their project and keyed by a generated id.
use vstd::prelude::*;
use vstd::string::*;
use dashmap::DashMap;
use crate::keyed::{DeepCopy, fresh_key, keys_unique, listed_entries, listing, table};
use crate::stamps::{fresh_uuid, now_millis};

verus! {

pub struct IssueInfo {
    pub id: String,
    pub project_id: String,
    pub title: String,
    pub description: Option<String>,
    pub status: String,
    pub created_at: i64,
}

impl DeepCopy for IssueInfo {
    fn deep_copy(&self) -> (r: IssueInfo) {
        IssueInfo {
            id: self.id.clone(),
            project_id: self.project_id.clone(),
            title: self.title.clone(),
            description: self.description.deep_copy(),
            status: self.status.clone(),
            created_at: self.created_at,
        }
    }
}

pub open spec fn by_issue_id() -> spec_fn(IssueInfo) -> Seq<char> {
    |i: IssueInfo| i.id@
}

/// Project id to (issue id to issue).
pub type IssueTable = DashMap<String, DashMap<String, IssueInfo>>;

/// What an issue table holds: project id to (issue id to issue).
pub uninterp spec fn issue_entries(m: DashMap<String, DashMap<String, IssueInfo>>) -> Map<Seq<char>, Map<Seq<char>, IssueInfo>>;

/// The issues of `project` in a table's contents: none where it has none.
pub open spec fn project_part(t: Map<Seq<char>, Map<Seq<char>, IssueInfo>>, project: Seq<char>) -> Map<Seq<char>, IssueInfo> {
    if t.contains_key(project) { t[project] } else { Map::empty() }
}

/// Relies on `DashMap::new`: a map with no entries.
#[verifier::external_body]
fn new_issue_table() -> (r: IssueTable)
    ensures
        issue_entries(r).dom() == Set::<Seq<char>>::empty(),
{
    DashMap::new()
}

/// Relies on `DashMap::entry`, `Entry::or_default` and the inner map's
/// `insert`: the project's map, created empty where missing, now maps the
/// issue id to the issue; everything else is kept.
#[verifier::external_body]
fn store_issue(m: &mut IssueTable, project: String, id: String, issue: IssueInfo)
    ensures
        issue_entries(*final(m)) == issue_entries(*old(m)).insert(
            project@,
            project_part(issue_entries(*old(m)), project@).insert(id@, issue),
        ),
{
    m.entry(project).or_default().insert(id, issue);
}

/// Relies on `DashMap::get` on both levels: the issue stored under the two
/// keys, if any.
#[verifier::external_body]
fn issue_at(m: &IssueTable, project: &str, id: &str) -> (r: Option<IssueInfo>)
    ensures
        match r {
            Some(i) => project_part(issue_entries(*m), project@).contains_key(id@)
                && project_part(issue_entries(*m), project@)[id@] == i,
            None => !project_part(issue_entries(*m), project@).contains_key(id@),
        },
{
    m.get(project).and_then(|inner| inner.get(id).map(|e| e.value().deep_copy()))
}

/// Relies on `DashMap::get` and the inner map's `iter`: every issue of the
/// project once, with its id; none where the project has no map.
#[verifier::external_body]
fn project_issue_pairs(m: &IssueTable, project: &str) -> (r: Vec<(String, IssueInfo)>)
    ensures
        keys_unique(r@),
        table(r@) == project_part(issue_entries(*m), project@),
{
    m.get(project)
        .map(|inner| inner.iter().map(|e| (e.key().deep_copy(), e.value().deep_copy())).collect())
        .unwrap_or_default()
}

pub struct IssuesState {
    issues: IssueTable,
}

/// Every issue is filed under its own id, in the map of its own project.
pub open spec fn well_filed(t: Map<Seq<char>, Map<Seq<char>, IssueInfo>>) -> bool {
    forall|p: Seq<char>, k: Seq<char>| #[trigger] project_part(t, p).contains_key(k) ==> {
        &&& project_part(t, p)[k].id@ == k
        &&& project_part(t, p)[k].project_id@ == p
    }
}

/// The issues of `project`: none where it has none.
pub open spec fn issues_in(s: IssuesState, project: Seq<char>) -> Map<Seq<char>, IssueInfo> {
    project_part(s.issues(), project)
}

/// `post` is `pre` after filing `r` under `project` as an open issue.
pub open spec fn issue_created(
    pre: IssuesState,
    post: IssuesState,
    project: Seq<char>,
    title: Seq<char>,
    description: Option<String>,
    r: IssueInfo,
) -> bool {
    &&& r.project_id@ == project
    &&& r.title@ == title
    &&& r.description == description
    &&& r.status@ == "open"@
    &&& !issues_in(pre, project).contains_key(r.id@)
    &&& post.wf()
    &&& post.issues() == pre.issues().insert(project, issues_in(pre, project).insert(r.id@, r))
}

impl IssuesState {
    /// Project id to (issue id to issue).
    pub closed spec fn issues(&self) -> Map<Seq<char>, Map<Seq<char>, IssueInfo>> {
        issue_entries(self.issues)
    }

    pub closed spec fn wf(&self) -> bool {
        well_filed(self.issues())
    }

    pub fn new() -> (r: IssuesState)
        ensures
            r.wf(),
            r.issues() == Map::<Seq<char>, Map<Seq<char>, IssueInfo>>::empty(),
    {
        let r = IssuesState { issues: new_issue_table() };
        assert(r.issues() =~= Map::<Seq<char>, Map<Seq<char>, IssueInfo>>::empty());
        r
    }

    /// Files a new open issue under `project_id`, with a fresh id, stamped
    /// with the current time.
    pub fn create_issue(&mut self, project_id: String, title: String, description: Option<String>) -> (r: IssueInfo)
        requires
            old(self).wf(),
        ensures
            issue_created(*old(self), *final(self), project_id@, title@, description, r),
    {
        let now = now_millis();
        self.create_issue_at(project_id, title, description, now)
    }

    /// Files a new open issue under `project_id`, created at `now`, under a
    /// random id that no issue of the project has yet.
    pub fn create_issue_at(&mut self, project_id: String, title: String, description: Option<String>, now: i64) -> (r: IssueInfo)
        requires
            old(self).wf(),
        ensures
            issue_created(*old(self), *final(self), project_id@, title@, description, r),
            r.created_at == now,
    {
        let pairs = project_issue_pairs(&self.issues, project_id.as_str());
        let issue = IssueInfo {
            id: fresh_key(&pairs, fresh_uuid()),
            project_id: project_id.clone(),
            title,
            description,
            status: String::from_str("open"),
            created_at: now,
        };
        let r = issue.deep_copy();
        self.file(project_id, issue);
        r
    }

    /// Puts `issue` under `project`, replacing one of the same id.
    fn file(&mut self, project: String, issue: IssueInfo)
        requires
            old(self).wf(),
            issue.project_id@ == project@,
        ensures
            final(self).wf(),
            final(self).issues() == old(self).issues().insert(project@, issues_in(*old(self), project@).insert(issue.id@, issue)),
    {
        let ghost pre = self.issues();
        let ghost p = project@;
        let ghost filed = issue;
        let id = issue.id.clone();
        store_issue(&mut self.issues, project, id, issue);
        proof {
            let post = self.issues();
            assert forall|q: Seq<char>, k: Seq<char>| #[trigger] project_part(post, q).contains_key(k) implies {
                &&& project_part(post, q)[k].id@ == k
                &&& project_part(post, q)[k].project_id@ == q
            } by {
                if q != p {
                    assert(project_part(post, q) == project_part(pre, q));
                } else if k != filed.id@ {
                    assert(project_part(pre, q).contains_key(k));
                }
            }
        }
    }

    /// The issue `issue_id` of `project_id`.
    pub fn get_issue(&self, project_id: &str, issue_id: &str) -> (r: Option<IssueInfo>)
        ensures
            match r {
                Some(i) => issues_in(*self, project_id@).contains_key(issue_id@)
                    && issues_in(*self, project_id@)[issue_id@] == i,
                None => !issues_in(*self, project_id@).contains_key(issue_id@),
            },
    {
        issue_at(&self.issues, project_id, issue_id)
    }

    /// A snapshot of the issues of `project_id`, each once.
    pub fn list_issues(&self, project_id: &str) -> (r: Vec<IssueInfo>)
        requires
            self.wf(),
        ensures
            listing(issues_in(*self, project_id@), r@, by_issue_id()),
    {
        let pairs = project_issue_pairs(&self.issues, project_id);
        listed_entries(&pairs, Ghost(issues_in(*self, project_id@)), Ghost(by_issue_id()))
    }

    /// Sets the status of issue `issue_id` of `project_id`; whether it exists.
    pub fn update_issue_status(&mut self, project_id: &str, issue_id: &str, status: String) -> (r: bool)
        requires
            old(self).wf(),
        ensures
            final(self).wf(),
            r == issues_in(*old(self), project_id@).contains_key(issue_id@),
            r ==> {
                let before = issues_in(*old(self), project_id@)[issue_id@];
                let after = issues_in(*final(self), project_id@)[issue_id@];
                &&& issues_in(*final(self), project_id@).contains_key(issue_id@)
                &&& after.id == before.id && after.project_id == before.project_id
                &&& after.title == before.title && after.description == before.description
                &&& after.created_at == before.created_at && after.status@ == status@
                &&& final(self).issues() == old(self).issues().insert(
                    project_id@,
                    issues_in(*old(self), project_id@).insert(issue_id@, after),
                )
            },
            !r ==> final(self).issues() == old(self).issues(),
    {
        match self.get_issue(project_id, issue_id) {
            Some(before) => {
                let ghost pre = *self;
                let updated = IssueInfo {
                    id: before.id,
                    project_id: before.project_id,
                    title: before.title,
                    description: before.description,
                    status,
                    created_at: before.created_at,
                };
                let ghost after = updated;
                let project = String::from_str(project_id);
                self.file(project, updated);
                proof {
                    assert(issues_in(*self, project_id@) == issues_in(pre, project_id@).insert(issue_id@, after));
                }
                true
            },
            None => false,
        }
    }
}

} // verus!
