//! All resource stores of one server, created together.
use vstd::prelude::*;
use crate::state::auth::{AuthState, TokenInfo};
use crate::state::buckets::{BucketInfo, BucketState};
use crate::state::issues::{IssueInfo, IssuesState};
use crate::state::objects::{ObjectInfo, ObjectState};
use crate::state::projects::{ProjectState, seeded};
use crate::state::translations::{TranslationJob, TranslationState};
use crate::state::webhooks::{WebhookSubscription, WebhooksState};

verus! {

pub struct StateManager {
    pub auth: AuthState,
    pub buckets: BucketState,
    pub objects: ObjectState,
    pub projects: ProjectState,
    pub translations: TranslationState,
    pub issues: IssuesState,
    pub webhooks: WebhooksState,
}

impl StateManager {
    pub open spec fn wf(&self) -> bool {
        &&& self.auth.wf()
        &&& self.buckets.wf()
        &&& self.objects.wf()
        &&& self.projects.wf()
        &&& self.translations.wf()
        &&& self.issues.wf()
        &&& self.webhooks.wf()
    }

    /// Fresh stores: all empty but for the seeded default hub and project.
    pub fn new() -> (r: StateManager)
        ensures
            r.wf(),
            r.auth.tokens() == Map::<Seq<char>, TokenInfo>::empty(),
            r.auth.index() == Map::<Seq<char>, Seq<char>>::empty(),
            r.buckets.buckets() == Map::<Seq<char>, BucketInfo>::empty(),
            r.objects.objects() == Map::<Seq<char>, Map<Seq<char>, ObjectInfo>>::empty(),
            seeded(r.projects),
            r.translations.jobs() == Map::<Seq<char>, TranslationJob>::empty(),
            r.issues.issues() == Map::<Seq<char>, Map<Seq<char>, IssueInfo>>::empty(),
            r.webhooks.subscriptions() == Map::<Seq<char>, WebhookSubscription>::empty(),
    {
        StateManager {
            auth: AuthState::new(),
            buckets: BucketState::new(),
            objects: ObjectState::new(),
            projects: ProjectState::new(),
            translations: TranslationState::new(),
            issues: IssuesState::new(),
            webhooks: WebhooksState::new(),
        }
    }

    /// State is not persisted: loading accepts any path and leaves the stores
    /// as they are.
    pub fn load_from_file(&self, path: &str) -> (r: Result<(), String>)
        ensures
            r is Ok,
    {
        Ok(())
    }

    /// State is not persisted: saving accepts any path and writes nothing.
    pub fn save_to_file(&self, path: &str) -> (r: Result<(), String>)
        ensures
            r is Ok,
    {
        Ok(())
    }
}

} // verus!
