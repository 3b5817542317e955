//! Storage buckets, keyed by their unique bucket key.
use vstd::prelude::*;
use vstd::string::*;
use std::sync::Arc;
use dashmap::DashMap;
use crate::keyed::{DeepCopy, filed_by_key, keys_unique, listed_entries, listing, table};
use crate::stamps::now_millis;

verus! {

pub struct Permission {
    pub auth_id: String,
    pub access: String,
}

pub struct BucketInfo {
    pub bucket_key: String,
    pub bucket_owner: String,
    pub created_date: i64,
    pub policy_key: String,
    pub permissions: Arc<Vec<Permission>>,
}

impl DeepCopy for BucketInfo {
    fn deep_copy(&self) -> (r: BucketInfo) {
        BucketInfo {
            bucket_key: self.bucket_key.clone(),
            bucket_owner: self.bucket_owner.clone(),
            created_date: self.created_date,
            policy_key: self.policy_key.clone(),
            permissions: self.permissions.clone(),
        }
    }
}

pub open spec fn by_bucket_key() -> spec_fn(BucketInfo) -> Seq<char> {
    |b: BucketInfo| b.bucket_key@
}

/// Bucket key to bucket.
pub type BucketTable = DashMap<String, BucketInfo>;

/// What a bucket table holds.
pub uninterp spec fn bucket_entries(m: DashMap<String, BucketInfo>) -> Map<Seq<char>, BucketInfo>;

/// Relies on `DashMap::new`: a map with no entries.
#[verifier::external_body]
fn new_bucket_table() -> (r: BucketTable)
    ensures
        bucket_entries(r).dom() == Set::<Seq<char>>::empty(),
{
    DashMap::new()
}

/// Relies on `DashMap::get`: the entry stored under the key, if any.
#[verifier::external_body]
fn bucket_at(m: &BucketTable, key: &str) -> (r: Option<BucketInfo>)
    ensures
        match r {
            Some(b) => bucket_entries(*m).contains_key(key@) && bucket_entries(*m)[key@] == b,
            None => !bucket_entries(*m).contains_key(key@),
        },
{
    m.get(key).map(|e| e.value().deep_copy())
}

/// Relies on `DashMap::insert`: the key now maps to the value, others are kept.
#[verifier::external_body]
fn store_bucket(m: &mut BucketTable, key: String, b: BucketInfo)
    ensures
        bucket_entries(*final(m)) == bucket_entries(*old(m)).insert(key@, b),
{
    m.insert(key, b);
}

/// Relies on `DashMap::remove`: the key's entry is gone, others are kept; the
/// result says whether there was one.
#[verifier::external_body]
fn drop_bucket(m: &mut BucketTable, key: &str) -> (r: bool)
    ensures
        bucket_entries(*final(m)) == bucket_entries(*old(m)).remove(key@),
        r == bucket_entries(*old(m)).contains_key(key@),
{
    m.remove(key).is_some()
}

/// Relies on `DashMap::iter`: it visits every entry once, with its key.
#[verifier::external_body]
fn bucket_pairs(m: &BucketTable) -> (r: Vec<(String, BucketInfo)>)
    ensures
        keys_unique(r@),
        table(r@) == bucket_entries(*m),
{
    m.iter().map(|e| (e.key().deep_copy(), e.value().deep_copy())).collect()
}

pub struct BucketState {
    buckets: BucketTable,
}

/// `post` is `pre` after creating bucket `b` from `key` and `policy` at `now`
/// (milliseconds since the epoch); a bucket of the same key is replaced.
pub open spec fn bucket_created(
    pre: BucketState,
    post: BucketState,
    key: Seq<char>,
    policy: Seq<char>,
    now: i64,
    b: BucketInfo,
) -> bool {
    &&& b.bucket_key@ == key
    &&& b.bucket_owner@ == "mock-owner"@
    &&& b.created_date == now
    &&& b.policy_key@ == policy
    &&& b.permissions@.len() == 0
    &&& post.wf()
    &&& post.buckets() == pre.buckets().insert(key, b)
}

impl BucketState {
    /// Bucket key to bucket.
    pub closed spec fn buckets(&self) -> Map<Seq<char>, BucketInfo> {
        bucket_entries(self.buckets)
    }

    pub closed spec fn wf(&self) -> bool {
        filed_by_key(self.buckets(), by_bucket_key())
    }

    pub fn new() -> (r: BucketState)
        ensures
            r.wf(),
            r.buckets() == Map::<Seq<char>, BucketInfo>::empty(),
    {
        let r = BucketState { buckets: new_bucket_table() };
        assert(r.buckets() =~= Map::<Seq<char>, BucketInfo>::empty());
        r
    }

    /// Creates (or replaces) the bucket `bucket_key`, stamped with the current time.
    pub fn create_bucket(&mut self, bucket_key: String, policy_key: String) -> (r: BucketInfo)
        requires
            old(self).wf(),
        ensures
            exists|now: i64| bucket_created(*old(self), *final(self), bucket_key@, policy_key@, now, r),
    {
        let now = now_millis();
        self.create_bucket_at(bucket_key, policy_key, now)
    }

    /// Creates (or replaces) the bucket `bucket_key`, created at `now`.
    pub fn create_bucket_at(&mut self, bucket_key: String, policy_key: String, now: i64) -> (r: BucketInfo)
        requires
            old(self).wf(),
        ensures
            bucket_created(*old(self), *final(self), bucket_key@, policy_key@, now, r),
    {
        let bucket = BucketInfo {
            bucket_key: bucket_key.clone(),
            bucket_owner: String::from_str("mock-owner"),
            created_date: now,
            policy_key,
            permissions: Arc::new(Vec::new()),
        };
        let r = bucket.deep_copy();
        store_bucket(&mut self.buckets, bucket_key, bucket);
        r
    }

    /// The bucket `bucket_key`.
    pub fn get_bucket(&self, bucket_key: &str) -> (r: Option<BucketInfo>)
        ensures
            match r {
                Some(b) => self.buckets().contains_key(bucket_key@) && self.buckets()[bucket_key@] == b,
                None => !self.buckets().contains_key(bucket_key@),
            },
    {
        bucket_at(&self.buckets, bucket_key)
    }

    /// A snapshot of all buckets, each once.
    pub fn list_buckets(&self) -> (r: Vec<BucketInfo>)
        requires
            self.wf(),
        ensures
            listing(self.buckets(), r@, by_bucket_key()),
    {
        let pairs = bucket_pairs(&self.buckets);
        listed_entries(&pairs, Ghost(self.buckets()), Ghost(by_bucket_key()))
    }

    /// Deletes the bucket `bucket_key`; whether it existed.
    pub fn delete_bucket(&mut self, bucket_key: &str) -> (r: bool)
        requires
            old(self).wf(),
        ensures
            final(self).wf(),
            r == old(self).buckets().contains_key(bucket_key@),
            final(self).buckets() == old(self).buckets().remove(bucket_key@),
    {
        drop_bucket(&mut self.buckets, bucket_key)
    }
}

/// A bucket, once created, is in every listing taken before the next change.
pub proof fn lemma_created_bucket_listed(
    pre: BucketState,
    post: BucketState,
    key: Seq<char>,
    policy: Seq<char>,
    now: i64,
    b: BucketInfo,
    listed: Seq<BucketInfo>,
)
    requires
        bucket_created(pre, post, key, policy, now, b),
        listing(post.buckets(), listed, by_bucket_key()),
    ensures
        exists|i: int| 0 <= i < listed.len() && (#[trigger] listed[i]).bucket_key@ == key && listed[i] == b,
{
    assert(post.buckets().contains_key(key));
    let i = choose|i: int| 0 <= i < listed.len() && by_bucket_key()(#[trigger] listed[i]) == key;
    assert(listed[i].bucket_key@ == key);
}

} // verus!
