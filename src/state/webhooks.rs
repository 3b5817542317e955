//! Webhook subscriptions, keyed by a generated hook id.
use vstd::prelude::*;
use vstd::string::*;
use dashmap::DashMap;
use crate::keyed::{DeepCopy, filed_by_key, fresh_key, keys_unique, listed_entries, listing, table};
use crate::stamps::{fresh_uuid, now_millis};
use crate::text::same_text;

verus! {

pub struct WebhookScope {
    pub folder: Option<String>,
    pub project: Option<String>,
}

impl DeepCopy for WebhookScope {
    fn deep_copy(&self) -> (r: WebhookScope) {
        WebhookScope { folder: self.folder.deep_copy(), project: self.project.deep_copy() }
    }
}

pub struct WebhookSubscription {
    pub hook_id: String,
    pub tenant: String,
    pub callback_url: String,
    pub scope: WebhookScope,
    pub status: String,
    pub created_at: i64,
}

impl DeepCopy for WebhookSubscription {
    fn deep_copy(&self) -> (r: WebhookSubscription) {
        WebhookSubscription {
            hook_id: self.hook_id.clone(),
            tenant: self.tenant.clone(),
            callback_url: self.callback_url.clone(),
            scope: self.scope.deep_copy(),
            status: self.status.clone(),
            created_at: self.created_at,
        }
    }
}

pub open spec fn by_hook_id() -> spec_fn(WebhookSubscription) -> Seq<char> {
    |s: WebhookSubscription| s.hook_id@
}

/// The subscriptions of `all` whose tenant is `tenant`, in order.
pub open spec fn of_tenant(all: Seq<WebhookSubscription>, tenant: Seq<char>) -> Seq<WebhookSubscription> {
    all.filter(|s: WebhookSubscription| s.tenant@ == tenant)
}

/// Hook id to subscription.
pub type HookTable = DashMap<String, WebhookSubscription>;

/// What a hook table holds.
pub uninterp spec fn hook_entries(m: DashMap<String, WebhookSubscription>) -> Map<Seq<char>, WebhookSubscription>;

/// Relies on `DashMap::new`: a map with no entries.
#[verifier::external_body]
fn new_hook_table() -> (r: HookTable)
    ensures
        hook_entries(r).dom() == Set::<Seq<char>>::empty(),
{
    DashMap::new()
}

/// Relies on `DashMap::get`: the entry stored under the key, if any.
#[verifier::external_body]
fn hook_at(m: &HookTable, id: &str) -> (r: Option<WebhookSubscription>)
    ensures
        match r {
            Some(h) => hook_entries(*m).contains_key(id@) && hook_entries(*m)[id@] == h,
            None => !hook_entries(*m).contains_key(id@),
        },
{
    m.get(id).map(|e| e.value().deep_copy())
}

/// Relies on `DashMap::insert`: the key now maps to the value, others are kept.
#[verifier::external_body]
fn store_hook(m: &mut HookTable, id: String, hook: WebhookSubscription)
    ensures
        hook_entries(*final(m)) == hook_entries(*old(m)).insert(id@, hook),
{
    m.insert(id, hook);
}

/// Relies on `DashMap::remove`: the key's entry is gone, others are kept; the
/// result says whether there was one.
#[verifier::external_body]
fn drop_hook(m: &mut HookTable, id: &str) -> (r: bool)
    ensures
        hook_entries(*final(m)) == hook_entries(*old(m)).remove(id@),
        r == hook_entries(*old(m)).contains_key(id@),
{
    m.remove(id).is_some()
}

/// Relies on `DashMap::iter`: it visits every entry once, with its key.
#[verifier::external_body]
fn hook_pairs(m: &HookTable) -> (r: Vec<(String, WebhookSubscription)>)
    ensures
        keys_unique(r@),
        table(r@) == hook_entries(*m),
{
    m.iter().map(|e| (e.key().deep_copy(), e.value().deep_copy())).collect()
}

pub struct WebhooksState {
    subscriptions: HookTable,
}

impl WebhooksState {
    /// Hook id to subscription.
    pub closed spec fn subscriptions(&self) -> Map<Seq<char>, WebhookSubscription> {
        hook_entries(self.subscriptions)
    }

    pub closed spec fn wf(&self) -> bool {
        filed_by_key(self.subscriptions(), by_hook_id())
    }

    pub fn new() -> (r: WebhooksState)
        ensures
            r.wf(),
            r.subscriptions() == Map::<Seq<char>, WebhookSubscription>::empty(),
    {
        let r = WebhooksState { subscriptions: new_hook_table() };
        assert(r.subscriptions() =~= Map::<Seq<char>, WebhookSubscription>::empty());
        r
    }

    /// Registers an active subscription under a fresh hook id, stamped with
    /// the current time.
    pub fn create_subscription(&mut self, tenant: String, callback_url: String, scope: WebhookScope) -> (r: WebhookSubscription)
        requires
            old(self).wf(),
        ensures
            final(self).wf(),
            !old(self).subscriptions().contains_key(r.hook_id@),
            r.tenant@ == tenant@,
            r.callback_url@ == callback_url@,
            r.scope == scope,
            r.status@ == "active"@,
            final(self).subscriptions() == old(self).subscriptions().insert(r.hook_id@, r),
    {
        let now = now_millis();
        self.create_subscription_at(tenant, callback_url, scope, now)
    }

    /// Registers an active subscription created at `now`, under a random
    /// hook id that no subscription has yet.
    pub fn create_subscription_at(
        &mut self,
        tenant: String,
        callback_url: String,
        scope: WebhookScope,
        now: i64,
    ) -> (r: WebhookSubscription)
        requires
            old(self).wf(),
        ensures
            final(self).wf(),
            !old(self).subscriptions().contains_key(r.hook_id@),
            r.tenant@ == tenant@,
            r.callback_url@ == callback_url@,
            r.scope == scope,
            r.status@ == "active"@,
            r.created_at == now,
            final(self).subscriptions() == old(self).subscriptions().insert(r.hook_id@, r),
    {
        let pairs = hook_pairs(&self.subscriptions);
        let hook_id = fresh_key(&pairs, fresh_uuid());
        let subscription = WebhookSubscription {
            hook_id: hook_id.clone(),
            tenant,
            callback_url,
            scope,
            status: String::from_str("active"),
            created_at: now,
        };
        let r = subscription.deep_copy();
        store_hook(&mut self.subscriptions, hook_id, subscription);
        r
    }

    /// The subscription `hook_id`.
    pub fn get_subscription(&self, hook_id: &str) -> (r: Option<WebhookSubscription>)
        ensures
            match r {
                Some(s) => self.subscriptions().contains_key(hook_id@) && self.subscriptions()[hook_id@] == s,
                None => !self.subscriptions().contains_key(hook_id@),
            },
    {
        hook_at(&self.subscriptions, hook_id)
    }

    /// A snapshot of all subscriptions, each once.
    pub fn list_subscriptions(&self) -> (r: Vec<WebhookSubscription>)
        requires
            self.wf(),
        ensures
            listing(self.subscriptions(), r@, by_hook_id()),
    {
        let pairs = hook_pairs(&self.subscriptions);
        listed_entries(&pairs, Ghost(self.subscriptions()), Ghost(by_hook_id()))
    }

    /// The subscriptions of one listing that belong to `tenant`, in order.
    pub fn select_tenant(all: Vec<WebhookSubscription>, tenant: &str) -> (r: Vec<WebhookSubscription>)
        ensures
            r@ == of_tenant(all@, tenant@),
    {
        let mut out: Vec<WebhookSubscription> = Vec::new();
        let mut i: usize = 0;
        while i < all.len()
            invariant
                i <= all@.len(),
                out@ == of_tenant(all@.subrange(0, i as int), tenant@),
            decreases all@.len() - i,
        {
            proof {
                let s = all@.subrange(0, i + 1);
                assert(s.drop_last() =~= all@.subrange(0, i as int));
                assert(s.filter(|s: WebhookSubscription| s.tenant@ == tenant@) == s.drop_last().filter(
                    |s: WebhookSubscription| s.tenant@ == tenant@,
                ) + (if s.last().tenant@ == tenant@ { seq![s.last()] } else { Seq::empty() })) by {
                    reveal(Seq::filter);
                    assert(s.filter(|s: WebhookSubscription| s.tenant@ == tenant@) == {
                        let out = s.drop_last().filter(|s: WebhookSubscription| s.tenant@ == tenant@);
                        if s.last().tenant@ == tenant@ { out.push(s.last()) } else { out }
                    });
                    if s.last().tenant@ == tenant@ {
                        assert(s.drop_last().filter(|s: WebhookSubscription| s.tenant@ == tenant@).push(s.last())
                            =~= s.drop_last().filter(|s: WebhookSubscription| s.tenant@ == tenant@) + seq![s.last()]);
                    } else {
                        assert(s.drop_last().filter(|s: WebhookSubscription| s.tenant@ == tenant@)
                            =~= s.drop_last().filter(|s: WebhookSubscription| s.tenant@ == tenant@) + Seq::empty());
                    }
                }
            }
            if same_text(all[i].tenant.as_str(), tenant) {
                out.push(all[i].deep_copy());
            }
            i = i + 1;
        }
        assert(all@.subrange(0, all@.len() as int) =~= all@);
        out
    }

    /// Deletes the subscription `hook_id`; whether it existed.
    pub fn delete_subscription(&mut self, hook_id: &str) -> (r: bool)
        requires
            old(self).wf(),
        ensures
            final(self).wf(),
            r == old(self).subscriptions().contains_key(hook_id@),
            final(self).subscriptions() == old(self).subscriptions().remove(hook_id@),
    {
        drop_hook(&mut self.subscriptions, hook_id)
    }
}

} // verus!
