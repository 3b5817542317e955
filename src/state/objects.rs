//! Stored objects, keyed by bucket and then by object key.
use vstd::prelude::*;
use vstd::string::*;
use dashmap::DashMap;
use crate::keyed::{DeepCopy, filed_by_key, keys_unique, listed_entries, listing, table};
use crate::stamps::fresh_uuid;
use crate::text::has_prefix;

verus! {

pub struct ObjectInfo {
    pub bucket_key: String,
    pub object_key: String,
    pub object_id: String,
    pub sha1: String,
    pub size: u64,
    pub content_type: String,
    pub location: String,
}

impl DeepCopy for ObjectInfo {
    fn deep_copy(&self) -> (r: ObjectInfo) {
        ObjectInfo {
            bucket_key: self.bucket_key.clone(),
            object_key: self.object_key.clone(),
            object_id: self.object_id.clone(),
            sha1: self.sha1.clone(),
            size: self.size,
            content_type: self.content_type.clone(),
            location: self.location.clone(),
        }
    }
}

pub open spec fn by_object_key() -> spec_fn(ObjectInfo) -> Seq<char> {
    |o: ObjectInfo| o.object_key@
}

/// Bucket key to (object key to object).
pub type ObjectTable = DashMap<String, DashMap<String, ObjectInfo>>;

/// What an object table holds: bucket key to (object key to object).
pub uninterp spec fn object_entries(m: DashMap<String, DashMap<String, ObjectInfo>>) -> Map<Seq<char>, Map<Seq<char>, ObjectInfo>>;

/// The objects of `bucket` in a table's contents: none where it has none.
pub open spec fn bucket_part(t: Map<Seq<char>, Map<Seq<char>, ObjectInfo>>, bucket: Seq<char>) -> Map<Seq<char>, ObjectInfo> {
    if t.contains_key(bucket) { t[bucket] } else { Map::empty() }
}

/// Relies on `DashMap::new`: a map with no entries.
#[verifier::external_body]
fn new_object_table() -> (r: ObjectTable)
    ensures
        object_entries(r).dom() == Set::<Seq<char>>::empty(),
{
    DashMap::new()
}

/// Relies on `DashMap::entry`, `Entry::or_default` and the inner map's
/// `insert`: the bucket's map, created empty where missing, now maps the
/// object key to the object; everything else is kept.
#[verifier::external_body]
fn store_object(m: &mut ObjectTable, bucket: String, key: String, o: ObjectInfo)
    ensures
        object_entries(*final(m)) == object_entries(*old(m)).insert(
            bucket@,
            bucket_part(object_entries(*old(m)), bucket@).insert(key@, o),
        ),
{
    m.entry(bucket).or_default().insert(key, o);
}

/// Relies on `DashMap::get` on both levels: the object stored under the two
/// keys, if any.
#[verifier::external_body]
fn object_at(m: &ObjectTable, bucket: &str, key: &str) -> (r: Option<ObjectInfo>)
    ensures
        match r {
            Some(o) => bucket_part(object_entries(*m), bucket@).contains_key(key@)
                && bucket_part(object_entries(*m), bucket@)[key@] == o,
            None => !bucket_part(object_entries(*m), bucket@).contains_key(key@),
        },
{
    m.get(bucket).and_then(|inner| inner.get(key).map(|e| e.value().deep_copy()))
}

/// Relies on `DashMap::get` and the inner map's `iter`: every object of the
/// bucket once, with its key; none where the bucket has no map.
#[verifier::external_body]
fn bucket_object_pairs(m: &ObjectTable, bucket: &str) -> (r: Vec<(String, ObjectInfo)>)
    ensures
        keys_unique(r@),
        table(r@) == bucket_part(object_entries(*m), bucket@),
{
    m.get(bucket)
        .map(|inner| inner.iter().map(|e| (e.key().deep_copy(), e.value().deep_copy())).collect())
        .unwrap_or_default()
}

/// Relies on `DashMap::get` and the inner map's `remove`: the object is gone
/// from its bucket's map where it was there; the result says whether it was.
#[verifier::external_body]
fn drop_object(m: &mut ObjectTable, bucket: &str, key: &str) -> (r: bool)
    ensures
        r == bucket_part(object_entries(*old(m)), bucket@).contains_key(key@),
        r ==> object_entries(*final(m)) == object_entries(*old(m)).insert(
            bucket@,
            bucket_part(object_entries(*old(m)), bucket@).remove(key@),
        ),
        !r ==> object_entries(*final(m)) == object_entries(*old(m)),
{
    m.get(bucket).and_then(|inner| inner.remove(key)).is_some()
}

pub struct ObjectState {
    objects: ObjectTable,
}

/// Every object is filed under its own key, in the map of its own bucket.
pub open spec fn well_filed(t: Map<Seq<char>, Map<Seq<char>, ObjectInfo>>) -> bool {
    forall|b: Seq<char>, k: Seq<char>| #[trigger] bucket_part(t, b).contains_key(k) ==> {
        &&& bucket_part(t, b)[k].object_key@ == k
        &&& bucket_part(t, b)[k].bucket_key@ == b
    }
}

proof fn lemma_well_filed_after(
    pre: Map<Seq<char>, Map<Seq<char>, ObjectInfo>>,
    bucket: Seq<char>,
    inner: Map<Seq<char>, ObjectInfo>,
)
    requires
        well_filed(pre),
        forall|k: Seq<char>| #[trigger] inner.contains_key(k) ==> (bucket_part(pre, bucket).contains_key(k)
            && inner[k] == bucket_part(pre, bucket)[k]) || (inner[k].object_key@ == k && inner[k].bucket_key@ == bucket),
    ensures
        well_filed(pre.insert(bucket, inner)),
{
    let post = pre.insert(bucket, inner);
    assert forall|b: Seq<char>, k: Seq<char>| #[trigger] bucket_part(post, b).contains_key(k) implies {
        &&& bucket_part(post, b)[k].object_key@ == k
        &&& bucket_part(post, b)[k].bucket_key@ == b
    } by {
        if b != bucket {
            assert(bucket_part(post, b) == bucket_part(pre, b));
        } else {
            assert(bucket_part(post, b) == inner);
            if bucket_part(pre, bucket).contains_key(k) && inner[k] == bucket_part(pre, bucket)[k] {
                assert(bucket_part(pre, b).contains_key(k));
            }
        }
    }
}

pub open spec fn object_id_for(bucket: Seq<char>, object: Seq<char>) -> Seq<char> {
    "urn:adsk.objects:os.object:"@ + bucket + "/"@ + object
}

pub open spec fn location_for(bucket: Seq<char>, object: Seq<char>) -> Seq<char> {
    "https://developer.api.autodesk.com/oss/v2/buckets/"@ + bucket + "/objects/"@ + object
}

/// The objects of `bucket`: none where the bucket holds none.
pub open spec fn objects_in(s: ObjectState, bucket: Seq<char>) -> Map<Seq<char>, ObjectInfo> {
    bucket_part(s.objects(), bucket)
}

/// `post` is `pre` after storing `r` as object `object` of `bucket`; an
/// object of the same keys is replaced.
pub open spec fn object_uploaded(
    pre: ObjectState,
    post: ObjectState,
    bucket: Seq<char>,
    object: Seq<char>,
    size: u64,
    content_type: Option<String>,
    r: ObjectInfo,
) -> bool {
    &&& r.bucket_key@ == bucket
    &&& r.object_key@ == object
    &&& r.object_id@ == object_id_for(bucket, object)
    &&& has_prefix(r.sha1@, "sha1_"@)
    &&& r.size == size
    &&& r.content_type@ == match content_type {
        Some(c) => c@,
        None => "application/octet-stream"@,
    }
    &&& r.location@ == location_for(bucket, object)
    &&& post.wf()
    &&& post.objects() == pre.objects().insert(bucket, objects_in(pre, bucket).insert(object, r))
}

impl ObjectState {
    /// Bucket key to (object key to object).
    pub closed spec fn objects(&self) -> Map<Seq<char>, Map<Seq<char>, ObjectInfo>> {
        object_entries(self.objects)
    }

    pub closed spec fn wf(&self) -> bool {
        well_filed(self.objects())
    }

    pub fn new() -> (r: ObjectState)
        ensures
            r.wf(),
            r.objects() == Map::<Seq<char>, Map<Seq<char>, ObjectInfo>>::empty(),
    {
        let r = ObjectState { objects: new_object_table() };
        assert(r.objects() =~= Map::<Seq<char>, Map<Seq<char>, ObjectInfo>>::empty());
        r
    }

    /// Stores object `object_key` in `bucket_key`, with a digest drawn at random.
    pub fn upload_object(
        &mut self,
        bucket_key: String,
        object_key: String,
        size: u64,
        content_type: Option<String>,
    ) -> (r: ObjectInfo)
        requires
            old(self).wf(),
        ensures
            object_uploaded(*old(self), *final(self), bucket_key@, object_key@, size, content_type, r),
    {
        let id = fresh_uuid();
        self.upload_object_with_digest(bucket_key, object_key, size, content_type, id.as_str())
    }

    /// Stores object `object_key` in `bucket_key`, with the digest
    /// `sha1_<digest_id>`.
    pub fn upload_object_with_digest(
        &mut self,
        bucket_key: String,
        object_key: String,
        size: u64,
        content_type: Option<String>,
        digest_id: &str,
    ) -> (r: ObjectInfo)
        requires
            old(self).wf(),
        ensures
            object_uploaded(*old(self), *final(self), bucket_key@, object_key@, size, content_type, r),
            r.sha1@ == "sha1_"@ + digest_id@,
    {
        let mut sha1 = String::from_str("sha1_");
        sha1.append(digest_id);
        let mut object_id = String::from_str("urn:adsk.objects:os.object:");
        object_id.append(bucket_key.as_str());
        object_id.append("/");
        object_id.append(object_key.as_str());
        let mut location = String::from_str("https://developer.api.autodesk.com/oss/v2/buckets/");
        location.append(bucket_key.as_str());
        location.append("/objects/");
        location.append(object_key.as_str());
        let content_type_value = match content_type {
            Some(c) => c,
            None => String::from_str("application/octet-stream"),
        };
        let object = ObjectInfo {
            bucket_key: bucket_key.clone(),
            object_key: object_key.clone(),
            object_id,
            sha1,
            size,
            content_type: content_type_value,
            location,
        };
        let r = object.deep_copy();
        assert(has_prefix(r.sha1@, "sha1_"@)) by {
            reveal_strlit("sha1_");
            assert(r.sha1@.subrange(0, 5) =~= "sha1_"@);
        }
        let ghost pre = self.objects();
        let ghost b = bucket_key@;
        let ghost inner = bucket_part(pre, b).insert(object_key@, r);
        store_object(&mut self.objects, bucket_key, object_key, object);
        proof {
            lemma_well_filed_after(pre, b, inner);
        }
        r
    }

    /// The object `object_key` of `bucket_key`.
    pub fn get_object(&self, bucket_key: &str, object_key: &str) -> (r: Option<ObjectInfo>)
        ensures
            match r {
                Some(o) => objects_in(*self, bucket_key@).contains_key(object_key@)
                    && objects_in(*self, bucket_key@)[object_key@] == o,
                None => !objects_in(*self, bucket_key@).contains_key(object_key@),
            },
    {
        object_at(&self.objects, bucket_key, object_key)
    }

    /// A snapshot of the objects of `bucket_key`, each once.
    pub fn list_objects(&self, bucket_key: &str) -> (r: Vec<ObjectInfo>)
        requires
            self.wf(),
        ensures
            listing(objects_in(*self, bucket_key@), r@, by_object_key()),
            forall|i: int| 0 <= i < r@.len() ==> (#[trigger] r@[i]).bucket_key@ == bucket_key@,
    {
        let pairs = bucket_object_pairs(&self.objects, bucket_key);
        let r = listed_entries(&pairs, Ghost(objects_in(*self, bucket_key@)), Ghost(by_object_key()));
        proof {
            assert forall|i: int| 0 <= i < r@.len() implies (#[trigger] r@[i]).bucket_key@ == bucket_key@ by {
                let k = by_object_key()(r@[i]);
                assert(bucket_part(self.objects(), bucket_key@).contains_key(k));
            }
        }
        r
    }

    /// Deletes object `object_key` of `bucket_key`; whether it existed.
    pub fn delete_object(&mut self, bucket_key: &str, object_key: &str) -> (r: bool)
        requires
            old(self).wf(),
        ensures
            final(self).wf(),
            r == objects_in(*old(self), bucket_key@).contains_key(object_key@),
            r ==> final(self).objects() == old(self).objects().insert(
                bucket_key@,
                objects_in(*old(self), bucket_key@).remove(object_key@),
            ),
            !r ==> final(self).objects() == old(self).objects(),
    {
        let ghost pre = self.objects();
        let r = drop_object(&mut self.objects, bucket_key, object_key);
        proof {
            if r {
                lemma_well_filed_after(pre, bucket_key@, bucket_part(pre, bucket_key@).remove(object_key@));
            }
        }
        r
    }
}

/// An uploaded object is listed exactly once among its bucket's objects, with
/// its keys, a non-empty digest and a non-empty location; every object
/// listed for the bucket names that bucket.
pub proof fn lemma_uploaded_object_listed(
    pre: ObjectState,
    post: ObjectState,
    bucket: Seq<char>,
    object: Seq<char>,
    size: u64,
    content_type: Option<String>,
    r: ObjectInfo,
    listed: Seq<ObjectInfo>,
)
    requires
        object_uploaded(pre, post, bucket, object, size, content_type, r),
        listing(objects_in(post, bucket), listed, by_object_key()),
    ensures
        forall|i: int| 0 <= i < listed.len() ==> (#[trigger] listed[i]).bucket_key@ == bucket,
        exists|i: int|
            0 <= i < listed.len() && (#[trigger] listed[i]).object_key@ == object && listed[i].bucket_key@ == bucket
                && listed[i].sha1@.len() > 0 && listed[i].location@.len() > 0
                && forall|j: int| 0 <= j < listed.len() && (#[trigger] listed[j]).object_key@ == object ==> j == i,
{
    let m = objects_in(post, bucket);
    assert(m.contains_key(object));
    assert(m[object] == r);
    let i = choose|i: int| 0 <= i < listed.len() && by_object_key()(#[trigger] listed[i]) == object;
    assert(listed[i] == r);
    assert(r.sha1@.len() > 0) by {
        reveal_strlit("sha1_");
    }
    assert(r.location@.len() > 0) by {
        reveal_strlit("https://developer.api.autodesk.com/oss/v2/buckets/");
        assert(r.location@ == location_for(bucket, object));
    }
    assert forall|j: int| 0 <= j < listed.len() && (#[trigger] listed[j]).object_key@ == object implies j == i by {
        if j != i {
            assert(by_object_key()(listed[j]) != by_object_key()(listed[i]));
        }
    }
    assert forall|j: int| 0 <= j < listed.len() implies (#[trigger] listed[j]).bucket_key@ == bucket by {
        let k = by_object_key()(listed[j]);
        assert(bucket_part(post.objects(), bucket).contains_key(k));
    }
}

} // verus!
